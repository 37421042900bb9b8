//! Terminal screen buffer (grid) for storing and manipulating terminal cell data.
//!
//! This module provides a 2D grid representation of terminal content,
//! including character data, colors, text attributes, and scrollback history.

use vstd::prelude::*;

use crate::terminal::parser::Color;
use crate::terminal::parser::TextAttributes;
use crate::terminal::parser::spec_default_attributes;

verus! {

/// A single cell in the terminal grid.
#[derive(Debug, Clone, Copy, PartialEq, Eq, Structural)]
pub struct Cell {
    /// The character displayed in this cell.
    pub char: char,
    /// Foreground color.
    pub fg_color: Color,
    /// Background color.
    pub bg_color: Color,
    /// Text attributes (bold, underline, etc.).
    pub attributes: TextAttributes,
}

/// The cell value that blank positions hold: a space with default styling.
pub open spec fn spec_default_cell() -> Cell {
    Cell {
        char: ' ',
        fg_color: Color::Default,
        bg_color: Color::Default,
        attributes: spec_default_attributes(),
    }
}

impl Default for Cell {
    fn default() -> (r: Self)
        ensures
            r == spec_default_cell(),
    {
        Cell {
            char: ' ',
            fg_color: Color::Default,
            bg_color: Color::Default,
            attributes: TextAttributes::default(),
        }
    }
}

impl Cell {
    /// Create a new cell with the given character.
    pub fn new(char: char) -> (r: Self)
        ensures
            r == (Cell { char, ..spec_default_cell() }),
    {
        Cell {
            char,
            ..Self::default()
        }
    }

    /// Create a new cell with character and colors.
    pub fn with_colors(char: char, fg_color: Color, bg_color: Color) -> (r: Self)
        ensures
            r == (Cell { char, fg_color, bg_color, attributes: spec_default_attributes() }),
    {
        Cell {
            char,
            fg_color,
            bg_color,
            attributes: TextAttributes::default(),
        }
    }

    /// Create a fully specified cell.
    pub fn with_attributes(
        char: char,
        fg_color: Color,
        bg_color: Color,
        attributes: TextAttributes,
    ) -> (r: Self)
        ensures
            r == (Cell { char, fg_color, bg_color, attributes }),
    {
        Cell {
            char,
            fg_color,
            bg_color,
            attributes,
        }
    }

    /// Check if this cell is empty (space with default colors and attributes).
    pub fn is_empty(&self) -> (r: bool)
        ensures
            r == (*self == spec_default_cell()),
    {
        self.char == ' '
            && self.fg_color == Color::Default
            && self.bg_color == Color::Default
            && self.attributes == TextAttributes::default()
    }

    /// Reset the cell to default state.
    pub fn reset(&mut self)
        ensures
            *final(self) == spec_default_cell(),
    {
        *self = Self::default();
    }
}

/// Cursor position in the terminal grid.
#[derive(Debug, Clone, Copy, PartialEq, Eq, Structural)]
pub struct Cursor {
    /// 0-indexed row.
    pub row: usize,
    /// 0-indexed column.
    pub col: usize,
}

impl Default for Cursor {
    fn default() -> (r: Self)
        ensures
            r == (Cursor { row: 0, col: 0 }),
    {
        Cursor { row: 0, col: 0 }
    }
}

impl Cursor {
    /// Create a new cursor at the given position.
    pub fn new(row: usize, col: usize) -> (r: Self)
        ensures
            r == (Cursor { row, col }),
    {
        Self { row, col }
    }

    /// Create a cursor at the origin (0, 0).
    pub fn origin() -> (r: Self)
        ensures
            r == (Cursor { row: 0, col: 0 }),
    {
        Self::default()
    }
}

/// A row in the scrollback buffer.
pub type ScrollbackRow = Vec<Cell>;

/// A row of `cols` blank cells.
pub open spec fn blank_row(cols: nat) -> Seq<Cell> {
    Seq::new(cols, |j: int| spec_default_cell())
}

/// `n` blank rows of `cols` cells each.
pub open spec fn blank_rows(n: nat, cols: nat) -> Seq<Seq<Cell>> {
    Seq::new(n, |i: int| blank_row(cols))
}

/// Mathematical abstraction of the screen buffer: the visible cell matrix,
/// the scrollback history, the cursor, and the current pen state.
#[verifier::ext_equal]
pub struct GridView {
    /// Visible rows, top to bottom; every row has exactly `cols` cells.
    pub cells: Seq<Seq<Cell>>,
    /// Rows evicted off the top by whole-screen scrolling, oldest first.
    pub scrollback: Seq<Seq<Cell>>,
    /// Width of the visible grid.
    pub cols: nat,
    /// Bound on how many scrollback rows are retained.
    pub max_scrollback: nat,
    /// Cursor row, 0-indexed.
    pub cursor_row: nat,
    /// Cursor column, 0-indexed; may equal `cols` while a wrap is pending.
    pub cursor_col: nat,
    /// Pen attributes stamped onto the next written cell.
    pub attributes: TextAttributes,
    /// Pen foreground color.
    pub fg: Color,
    /// Pen background color.
    pub bg: Color,
}

impl GridView {
    /// Well-formedness: row widths match `cols`, the scrollback respects its
    /// bound, and the cursor is in bounds (the column may sit one past the
    /// last column, the pending-wrap position).
    pub open spec fn wf(self) -> bool {
        &&& forall|i: int| 0 <= i < self.cells.len() ==> (#[trigger] self.cells[i]).len() == self.cols
        &&& self.scrollback.len() <= self.max_scrollback
        &&& if self.cells.len() == 0 {
            self.cursor_row == 0
        } else {
            self.cursor_row < self.cells.len()
        }
        &&& self.cursor_col <= self.cols
    }

    /// Number of visible rows.
    pub open spec fn rows(self) -> nat {
        self.cells.len()
    }

    /// The freshly constructed grid: all cells blank, cursor at the origin,
    /// empty scrollback, default pen.
    pub open spec fn fresh(cols: nat, rows: nat, max_scrollback: nat) -> GridView {
        GridView {
            cells: blank_rows(rows, cols),
            scrollback: Seq::empty(),
            cols,
            max_scrollback,
            cursor_row: 0,
            cursor_col: 0,
            attributes: spec_default_attributes(),
            fg: Color::Default,
            bg: Color::Default,
        }
    }

    /// The cell that a write at the cursor produces: the character under the
    /// current pen state.
    pub open spec fn pen_cell(self, c: char) -> Cell {
        Cell { char: c, fg_color: self.fg, bg_color: self.bg, attributes: self.attributes }
    }
}

/// `v` clamped into `[0, bound-1]`, or 0 when the bound is empty.
pub open spec fn clamp_index(v: int, bound: nat) -> nat {
    if bound == 0 {
        0
    } else if v >= bound {
        (bound - 1) as nat
    } else if v < 0 {
        0
    } else {
        v as nat
    }
}

/// Terminal screen buffer with scrollback history.
///
/// This struct manages a 2D grid of cells representing the visible terminal
/// content, plus an optional scrollback buffer for history.
#[derive(Debug, Clone)]
pub struct TerminalGrid {
    /// The visible grid of cells (rows × cols).
    grid: Vec<Vec<Cell>>,
    /// Number of columns (width).
    cols: usize,
    /// Number of rows (height).
    rows: usize,
    /// Current cursor position.
    cursor: Cursor,
    /// Scrollback buffer (lines that have scrolled off the top).
    scrollback: Vec<ScrollbackRow>,
    /// Maximum number of scrollback lines to keep.
    max_scrollback: usize,
    /// Current text attributes for new characters.
    attributes: TextAttributes,
    /// Current foreground color.
    fg_color: Color,
    /// Current background color.
    bg_color: Color,
}

impl View for TerminalGrid {
    type V = GridView;

    closed spec fn view(&self) -> GridView {
        GridView {
            cells: self.grid@.map_values(|r: Vec<Cell>| r@),
            scrollback: self.scrollback@.map_values(|r: Vec<Cell>| r@),
            cols: self.cols as nat,
            max_scrollback: self.max_scrollback as nat,
            cursor_row: self.cursor.row as nat,
            cursor_col: self.cursor.col as nat,
            attributes: self.attributes,
            fg: self.fg_color,
            bg: self.bg_color,
        }
    }
}

/// Builds one blank row of `cols` default cells.
fn blank_row_vec(cols: usize) -> (r: Vec<Cell>)
    ensures
        r@ == blank_row(cols as nat),
{
    let mut r: Vec<Cell> = Vec::new();
    let mut j: usize = 0;
    while j < cols
        invariant
            j <= cols,
            r@.len() == j,
            forall|k: int| 0 <= k < j ==> r@[k] == spec_default_cell(),
        decreases cols - j,
    {
        r.push(Cell::default());
        j += 1;
    }
    proof {
        assert(r@ =~= blank_row(cols as nat));
    }
    r
}

/// Copies a row of cells.
fn clone_row(row: &Vec<Cell>) -> (r: Vec<Cell>)
    ensures
        r@ == row@,
{
    let mut r: Vec<Cell> = Vec::new();
    let mut j: usize = 0;
    while j < row.len()
        invariant
            j <= row@.len(),
            r@ == row@.take(j as int),
        decreases row@.len() - j,
    {
        let c = row[j];
        r.push(c);
        j += 1;
        proof {
            assert(r@ =~= row@.take(j as int));
        }
    }
    proof {
        assert(row@.take(row@.len() as int) =~= row@);
    }
    r
}

impl TerminalGrid {
    /// Internal invariant: the cached dimensions agree with the vectors and
    /// the view is well-formed.
    pub closed spec fn inv(&self) -> bool {
        &&& self.rows == self.grid@.len()
        &&& self@.wf()
    }

    /// The internal invariant carries the view's well-formedness: every row
    /// is `cols` wide, the scrollback respects its cap, and the cursor is in
    /// bounds (its column at most one past the last column).
    pub proof fn lemma_inv_wf(&self)
        requires
            self.inv(),
        ensures
            self@.wf(),
    {
    }

    /// Create a new terminal grid with default dimensions (80×24).
    pub fn new() -> (r: Self)
        ensures
            r.inv(),
            r@ == GridView::fresh(80, 24, 10000),
    {
        Self::with_size(80, 24)
    }

    /// Create a new terminal grid with specified dimensions.
    ///
    /// # Arguments
    /// * `cols` - Number of columns (width).
    /// * `rows` - Number of rows (height).
    pub fn with_size(cols: usize, rows: usize) -> (r: Self)
        ensures
            r.inv(),
            r@ == GridView::fresh(cols as nat, rows as nat, 10000),
    {
        Self::with_scrollback(cols, rows, 10000)
    }

    /// Create a terminal grid with custom scrollback size.
    ///
    /// # Arguments
    /// * `cols` - Number of columns (width).
    /// * `rows` - Number of rows (height).
    /// * `max_scrollback` - Maximum scrollback lines to retain.
    pub fn with_scrollback(cols: usize, rows: usize, max_scrollback: usize) -> (r: Self)
        ensures
            r.inv(),
            r@ == GridView::fresh(cols as nat, rows as nat, max_scrollback as nat),
    {
        let mut grid: Vec<Vec<Cell>> = Vec::new();
        let mut i: usize = 0;
        while i < rows
            invariant
                i <= rows,
                grid@.len() == i,
                forall|k: int| 0 <= k < i ==> (#[trigger] grid@[k])@ == blank_row(cols as nat),
            decreases rows - i,
        {
            grid.push(blank_row_vec(cols));
            i += 1;
        }
        let r = TerminalGrid {
            grid,
            cols,
            rows,
            cursor: Cursor::default(),
            scrollback: Vec::new(),
            max_scrollback,
            attributes: TextAttributes::default(),
            fg_color: Color::Default,
            bg_color: Color::Default,
        };
        proof {
            assert(r@.cells =~= blank_rows(rows as nat, cols as nat));
            assert(r@.scrollback =~= Seq::<Seq<Cell>>::empty());
            assert(r@ =~= GridView::fresh(cols as nat, rows as nat, max_scrollback as nat));
        }
        r
    }

    /// Get the number of columns.
    pub fn cols(&self) -> (r: usize)
        ensures
            r == self@.cols,
    {
        self.cols
    }

    /// Get the number of rows.
    pub fn rows(&self) -> (r: usize)
        requires
            self.inv(),
        ensures
            r == self@.rows(),
    {
        self.rows
    }

    /// Get the current cursor position.
    pub fn cursor(&self) -> (r: Cursor)
        ensures
            r.row == self@.cursor_row,
            r.col == self@.cursor_col,
    {
        self.cursor
    }

    /// Get the number of scrollback lines.
    pub fn scrollback_len(&self) -> (r: usize)
        ensures
            r == self@.scrollback.len(),
    {
        self.scrollback.len()
    }

    /// Set the current text attributes.
    pub fn set_attributes(&mut self, attributes: TextAttributes)
        requires
            old(self).inv(),
        ensures
            final(self).inv(),
            final(self)@ == (GridView { attributes, ..old(self)@ }),
    {
        self.attributes = attributes;
    }

    /// Get the current text attributes.
    pub fn attributes(&self) -> (r: TextAttributes)
        ensures
            r == self@.attributes,
    {
        self.attributes
    }

    /// Set the current foreground color.
    pub fn set_foreground(&mut self, color: Color)
        requires
            old(self).inv(),
        ensures
            final(self).inv(),
            final(self)@ == (GridView { fg: color, ..old(self)@ }),
    {
        self.fg_color = color;
    }

    /// Set the current background color.
    pub fn set_background(&mut self, color: Color)
        requires
            old(self).inv(),
        ensures
            final(self).inv(),
            final(self)@ == (GridView { bg: color, ..old(self)@ }),
    {
        self.bg_color = color;
    }

    /// Move the cursor to a specific position.
    ///
    /// The position is clamped to valid grid coordinates.
    pub fn move_cursor(&mut self, row: usize, col: usize)
        requires
            old(self).inv(),
        ensures
            final(self).inv(),
            final(self)@ == old(self)@.spec_move_cursor(row, col),
    {
        self.cursor.row = if row < self.rows {
            row
        } else if self.rows == 0 {
            0
        } else {
            self.rows - 1
        };
        self.cursor.col = if col < self.cols {
            col
        } else if self.cols == 0 {
            0
        } else {
            self.cols - 1
        };
    }

    /// Move the cursor relative to its current position.
    ///
    /// Negative deltas saturate at 0; positive deltas clamp to the far edge.
    pub fn move_cursor_relative(&mut self, row_delta: isize, col_delta: isize)
        requires
            old(self).inv(),
        ensures
            final(self).inv(),
            final(self)@ == (GridView {
                cursor_row: rel_move(old(self)@.cursor_row, row_delta as int, old(self)@.rows()),
                cursor_col: rel_move(old(self)@.cursor_col, col_delta as int, old(self)@.cols),
                ..old(self)@
            }),
    {
        if row_delta < 0 {
            let mag: usize = if row_delta == isize::MIN {
                (isize::MAX as usize) + 1
            } else {
                (-row_delta) as usize
            };
            self.cursor.row = self.cursor.row.saturating_sub(mag);
        } else {
            let cap: usize = if self.rows == 0 {
                0
            } else {
                self.rows - 1
            };
            let target = self.cursor.row.saturating_add(row_delta as usize);
            self.cursor.row = if target < cap {
                target
            } else {
                cap
            };
        }
        if col_delta < 0 {
            let mag: usize = if col_delta == isize::MIN {
                (isize::MAX as usize) + 1
            } else {
                (-col_delta) as usize
            };
            self.cursor.col = self.cursor.col.saturating_sub(mag);
        } else {
            let cap: usize = if self.cols == 0 {
                0
            } else {
                self.cols - 1
            };
            let target = self.cursor.col.saturating_add(col_delta as usize);
            self.cursor.col = if target < cap {
                target
            } else {
                cap
            };
        }
    }

    /// Overwrites the cell at `(row, col)` with `cell`, leaving everything
    /// else unchanged. Out-of-bounds coordinates are ignored.
    fn set_cell_at(&mut self, row: usize, col: usize, cell: Cell)
        requires
            old(self).inv(),
        ensures
            final(self).inv(),
            row < old(self)@.rows() && col < old(self)@.cols ==> final(self)@ == (GridView {
                cells: old(self)@.cells.update(
                    row as int,
                    old(self)@.cells[row as int].update(col as int, cell),
                ),
                ..old(self)@
            }),
            !(row < old(self)@.rows() && col < old(self)@.cols) ==> *final(self) == *old(self),
    {
        if row < self.rows && col < self.cols {
            let mut line = self.grid.remove(row);
            line[col] = cell;
            self.grid.insert(row, line);
            proof {
                assert(final(self)@.cells =~= old(self)@.cells.update(
                    row as int,
                    old(self)@.cells[row as int].update(col as int, cell),
                ));
            }
        }
    }

    /// Put a character without advancing the cursor.
    pub fn put_char_at(&mut self, row: usize, col: usize, c: char)
        requires
            old(self).inv(),
        ensures
            final(self).inv(),
            row < old(self)@.rows() && col < old(self)@.cols ==> final(self)@ == (GridView {
                cells: old(self)@.cells.update(
                    row as int,
                    old(self)@.cells[row as int].update(col as int, old(self)@.pen_cell(c)),
                ),
                ..old(self)@
            }),
            !(row < old(self)@.rows() && col < old(self)@.cols) ==> *final(self) == *old(self),
    {
        let cell = Cell {
            char: c,
            fg_color: self.fg_color,
            bg_color: self.bg_color,
            attributes: self.attributes,
        };
        self.set_cell_at(row, col, cell);
    }

    /// Get a cell at the given position.
    ///
    /// Returns None if the position is out of bounds.
    pub fn get_cell(&self, row: usize, col: usize) -> (r: Option<&Cell>)
        requires
            self.inv(),
        ensures
            (r is Some) == (row < self@.rows() && col < self@.cols),
            r is Some ==> *r->0 == self@.cells[row as int][col as int],
    {
        if row < self.rows && col < self.cols {
            proof {
                assert(self@.cells[row as int].len() == self@.cols);
                assert(self.grid@[row as int]@ == self@.cells[row as int]);
            }
            Some(&self.grid[row][col])
        } else {
            None
        }
    }

    /// Get a reference to a row.
    pub fn get_row(&self, row: usize) -> (r: Option<&[Cell]>)
        requires
            self.inv(),
        ensures
            (r is Some) == (row < self@.rows()),
            r is Some ==> (*r->0)@ == self@.cells[row as int],
    {
        if row < self.rows {
            Some(self.grid[row].as_slice())
        } else {
            None
        }
    }
}

impl GridView {
    /// Row `r` with the columns `[from, to)` blanked and all else unchanged.
    pub open spec fn with_row_cleared(self, r: int, from: int, to: int) -> GridView {
        GridView {
            cells: self.cells.update(r, cleared_range(self.cells[r], from, to)),
            ..self
        }
    }
}

/// `row` with the cells in `[from, to)` reset to the default cell.
pub open spec fn cleared_range(row: Seq<Cell>, from: int, to: int) -> Seq<Cell> {
    Seq::new(row.len(), |j: int| if from <= j < to { spec_default_cell() } else { row[j] })
}

impl TerminalGrid {
    /// Resets the cells of row `row` in `[from, to)` to the default cell.
    fn clear_row_range(&mut self, row: usize, from: usize, to: usize)
        requires
            old(self).inv(),
            row < old(self)@.rows(),
            from <= to <= old(self)@.cols,
        ensures
            final(self).inv(),
            final(self)@ == old(self)@.with_row_cleared(row as int, from as int, to as int),
    {
        proof {
            assert(self@.cells[row as int].len() == self@.cols);
        }
        let mut line = self.grid.remove(row);
        let mut j = from;
        while j < to
            invariant
                from <= j <= to <= line@.len(),
                line@.len() == old(self)@.cells[row as int].len(),
                forall|k: int|
                    0 <= k < line@.len() ==> line@[k] == (if from <= k < j {
                        spec_default_cell()
                    } else {
                        old(self)@.cells[row as int][k]
                    }),
            decreases to - j,
        {
            line[j] = Cell::default();
            j += 1;
        }
        self.grid.insert(row, line);
        proof {
            assert(line@ =~= cleared_range(old(self)@.cells[row as int], from as int, to as int));
            assert(final(self)@.cells =~= old(self)@.cells.update(row as int, line@));
        }
    }

    /// Replaces row `row` with a fully blank row.
    fn blank_out_row(&mut self, row: usize)
        requires
            old(self).inv(),
            row < old(self)@.rows(),
        ensures
            final(self).inv(),
            final(self)@ == (GridView {
                cells: old(self)@.cells.update(row as int, blank_row(old(self)@.cols)),
                ..old(self)@
            }),
    {
        self.grid.remove(row);
        let fresh_row = blank_row_vec(self.cols);
        self.grid.insert(row, fresh_row);
        proof {
            assert(final(self)@.cells =~= old(self)@.cells.update(
                row as int,
                blank_row(old(self)@.cols),
            ));
        }
    }

    /// Clear the entire screen, filling with default cells.
    ///
    /// Also clears the scrollback.
    pub fn clear_screen(&mut self)
        requires
            old(self).inv(),
        ensures
            final(self).inv(),
            final(self)@ == old(self)@.spec_clear_screen(),
    {
        self.clear_screen_keep_scrollback();
        self.scrollback.clear();
        proof {
            assert(final(self)@.scrollback =~= Seq::<Seq<Cell>>::empty());
        }
    }

    /// Clear the screen but preserve scrollback.
    pub fn clear_screen_keep_scrollback(&mut self)
        requires
            old(self).inv(),
        ensures
            final(self).inv(),
            final(self)@ == old(self)@.spec_clear_screen_keep_scrollback(),
    {
        let mut r: usize = 0;
        proof {
            assert(self@ =~= (GridView {
                cells: old(self)@.cells.map(
                    |i: int, row: Seq<Cell>|
                        if i < r {
                            blank_row(old(self)@.cols)
                        } else {
                            row
                        },
                ),
                ..old(self)@
            }));
        }
        while r < self.rows
            invariant
                self.inv(),
                r <= self@.rows(),
                self@ == (GridView {
                    cells: old(self)@.cells.map(
                        |i: int, row: Seq<Cell>|
                            if i < r {
                                blank_row(old(self)@.cols)
                            } else {
                                row
                            },
                    ),
                    ..old(self)@
                }),
            decreases self@.rows() - r,
        {
            self.blank_out_row(r);
            r += 1;
            proof {
                assert(self@.cells =~= old(self)@.cells.map(
                    |i: int, row: Seq<Cell>|
                        if i < r {
                            blank_row(old(self)@.cols)
                        } else {
                            row
                        },
                ));
            }
        }
        proof {
            assert(self@.cells =~= blank_rows(old(self)@.rows(), old(self)@.cols));
            assert(self@ =~= (GridView {
                cells: blank_rows(old(self)@.rows(), old(self)@.cols),
                ..old(self)@
            }));
        }
    }

    /// Clear the current line.
    pub fn clear_line(&mut self)
        requires
            old(self).inv(),
        ensures
            final(self).inv(),
            final(self)@ == old(self)@.spec_clear_line(),
    {
        if self.cursor.row < self.rows {
            self.clear_row_range(self.cursor.row, 0, self.cols);
        }
    }

    /// Clear from cursor to end of the current line.
    pub fn clear_to_end_of_line(&mut self)
        requires
            old(self).inv(),
        ensures
            final(self).inv(),
            final(self)@ == old(self)@.spec_clear_to_end_of_line(),
    {
        if self.cursor.row < self.rows {
            self.clear_row_range(self.cursor.row, self.cursor.col, self.cols);
        }
    }

    /// Clear from start of the current line to the cursor (inclusive).
    pub fn clear_to_start_of_line(&mut self)
        requires
            old(self).inv(),
        ensures
            final(self).inv(),
            final(self)@ == old(self)@.spec_clear_to_start_of_line(),
    {
        if self.cursor.row < self.rows && self.cols > 0 {
            let last = if self.cursor.col < self.cols - 1 {
                self.cursor.col
            } else {
                self.cols - 1
            };
            self.clear_row_range(self.cursor.row, 0, last + 1);
        }
    }

    /// Clear from cursor to end of screen.
    pub fn clear_to_end_of_screen(&mut self)
        requires
            old(self).inv(),
        ensures
            final(self).inv(),
            final(self)@ == old(self)@.spec_clear_to_end_of_screen(),
    {
        if self.rows == 0 {
            return ;
        }
        self.clear_to_end_of_line();
        let mut r: usize = self.cursor.row + 1;
        proof {
            assert(self@.cells =~= Seq::new(
                old(self)@.rows(),
                |i: int|
                    if i < old(self)@.cursor_row {
                        old(self)@.cells[i]
                    } else if i == old(self)@.cursor_row {
                        cleared_range(
                            old(self)@.cells[i],
                            old(self)@.cursor_col as int,
                            old(self)@.cols as int,
                        )
                    } else if i < r {
                        blank_row(old(self)@.cols)
                    } else {
                        old(self)@.cells[i]
                    },
            ));
        }
        while r < self.rows
            invariant
                self.inv(),
                old(self)@.rows() > 0,
                old(self)@.cursor_row < r <= self@.rows(),
                self@ == (GridView {
                    cells: Seq::new(
                        old(self)@.rows(),
                        |i: int|
                            if i < old(self)@.cursor_row {
                                old(self)@.cells[i]
                            } else if i == old(self)@.cursor_row {
                                cleared_range(
                                    old(self)@.cells[i],
                                    old(self)@.cursor_col as int,
                                    old(self)@.cols as int,
                                )
                            } else if i < r {
                                blank_row(old(self)@.cols)
                            } else {
                                old(self)@.cells[i]
                            },
                    ),
                    ..old(self)@
                }),
            decreases self@.rows() - r,
        {
            self.blank_out_row(r);
            r += 1;
            proof {
                assert(self@.cells =~= Seq::new(
                    old(self)@.rows(),
                    |i: int|
                        if i < old(self)@.cursor_row {
                            old(self)@.cells[i]
                        } else if i == old(self)@.cursor_row {
                            cleared_range(
                                old(self)@.cells[i],
                                old(self)@.cursor_col as int,
                                old(self)@.cols as int,
                            )
                        } else if i < r {
                            blank_row(old(self)@.cols)
                        } else {
                            old(self)@.cells[i]
                        },
                ));
            }
        }
        proof {
            assert(self@.cells =~= Seq::new(
                old(self)@.rows(),
                |i: int|
                    if i < old(self)@.cursor_row {
                        old(self)@.cells[i]
                    } else if i == old(self)@.cursor_row {
                        cleared_range(
                            old(self)@.cells[i],
                            old(self)@.cursor_col as int,
                            old(self)@.cols as int,
                        )
                    } else {
                        blank_row(old(self)@.cols)
                    },
            ));
        }
    }

    /// Clear from start of screen to cursor.
    pub fn clear_to_start_of_screen(&mut self)
        requires
            old(self).inv(),
        ensures
            final(self).inv(),
            final(self)@ == old(self)@.spec_clear_to_start_of_screen(),
    {
        if self.rows == 0 {
            return ;
        }
        let mut r: usize = 0;
        proof {
            assert(self@.cells =~= Seq::new(
                old(self)@.rows(),
                |i: int|
                    if i < r {
                        blank_row(old(self)@.cols)
                    } else {
                        old(self)@.cells[i]
                    },
            ));
        }
        while r < self.cursor.row
            invariant
                self.inv(),
                old(self)@.rows() > 0,
                r <= old(self)@.cursor_row < self@.rows(),
                self@ == (GridView {
                    cells: Seq::new(
                        old(self)@.rows(),
                        |i: int|
                            if i < r {
                                blank_row(old(self)@.cols)
                            } else {
                                old(self)@.cells[i]
                            },
                    ),
                    ..old(self)@
                }),
            decreases old(self)@.cursor_row - r,
        {
            self.blank_out_row(r);
            r += 1;
            proof {
                assert(self@.cells =~= Seq::new(
                    old(self)@.rows(),
                    |i: int|
                        if i < r {
                            blank_row(old(self)@.cols)
                        } else {
                            old(self)@.cells[i]
                        },
                ));
            }
        }
        self.clear_to_start_of_line();
        proof {
            assert(self@.cursor_row == old(self)@.cursor_row);
            assert(self@.scrollback == old(self)@.scrollback);
            if old(self)@.cols > 0 {
                assert(self@.cells =~= Seq::new(
                    old(self)@.rows(),
                    |i: int|
                        if i < old(self)@.cursor_row {
                            blank_row(old(self)@.cols)
                        } else if i == old(self)@.cursor_row {
                            cleared_range(
                                old(self)@.cells[i],
                                0,
                                clamp_index(old(self)@.cursor_col as int, old(self)@.cols) as int + 1,
                            )
                        } else {
                            old(self)@.cells[i]
                        },
                ));
            } else {
                assert(self@.cells =~= Seq::new(
                    old(self)@.rows(),
                    |i: int|
                        if i < old(self)@.cursor_row {
                            blank_row(old(self)@.cols)
                        } else {
                            old(self)@.cells[i]
                        },
                ));
            }
        }
    }

    /// Clear the scrollback buffer.
    pub fn clear_scrollback(&mut self)
        requires
            old(self).inv(),
        ensures
            final(self).inv(),
            final(self)@ == (GridView { scrollback: Seq::empty(), ..old(self)@ }),
    {
        self.scrollback.clear();
        proof {
            assert(final(self)@.scrollback =~= Seq::<Seq<Cell>>::empty());
        }
    }
}

/// The last `max` rows of `s`: the scrollback after FIFO eviction.
pub open spec fn evict(s: Seq<Seq<Cell>>, max: nat) -> Seq<Seq<Cell>> {
    if s.len() > max {
        s.skip(s.len() - max)
    } else {
        s
    }
}

impl GridView {
    /// Whole-screen scroll up by `n`: the top `min(n, rows)` rows move into
    /// the scrollback (oldest evicted beyond the cap), the remaining rows
    /// shift up, and blank rows fill the bottom. The cursor does not move.
    pub open spec fn spec_scroll_up(self, n: nat) -> GridView {
        if n == 0 || self.cells.len() == 0 {
            self
        } else {
            let k = if n < self.cells.len() {
                n as int
            } else {
                self.cells.len() as int
            };
            GridView {
                cells: self.cells.skip(k) + blank_rows(k as nat, self.cols),
                scrollback: evict(self.scrollback + self.cells.take(k), self.max_scrollback),
                ..self
            }
        }
    }

    /// Whole-screen scroll down by `n`: the bottom `min(n, rows)` rows are
    /// discarded, blank rows appear at the top, and the cursor row moves
    /// down with the content, clamped to the last row.
    pub open spec fn spec_scroll_down(self, n: nat) -> GridView {
        if n == 0 || self.cells.len() == 0 {
            self
        } else {
            let k = if n < self.cells.len() {
                n as int
            } else {
                self.cells.len() as int
            };
            GridView {
                cells: blank_rows(k as nat, self.cols) + self.cells.take(self.cells.len() - k),
                cursor_row: clamp_index(self.cursor_row + k, self.cells.len()),
                ..self
            }
        }
    }

    /// True when a region request is valid: some rows, a real range, and the
    /// bottom inside the grid. Invalid requests are dropped silently.
    pub open spec fn region_ok(self, top: nat, bottom: nat) -> bool {
        self.cells.len() > 0 && top < bottom && bottom < self.cells.len()
    }

    /// Scroll rows `[top, bottom]` up by `n`: rows outside the region are
    /// untouched, rows leaving the top of the region are discarded (never
    /// sent to scrollback), and the freed bottom rows become blank.
    pub open spec fn spec_region_up(self, n: nat, top: nat, bottom: nat) -> GridView {
        if n == 0 || !self.region_ok(top, bottom) {
            self
        } else {
            let height = bottom - top + 1;
            let k = if n < height {
                n as int
            } else {
                height
            };
            GridView {
                cells: Seq::new(
                    self.cells.len(),
                    |i: int|
                        if i < top || i > bottom {
                            self.cells[i]
                        } else if i + k <= bottom {
                            self.cells[i + k]
                        } else {
                            blank_row(self.cols)
                        },
                ),
                ..self
            }
        }
    }

    /// The grid with the cursor moved, everything else unchanged.
    pub open spec fn with_cursor(self, row: nat, col: nat) -> GridView {
        GridView { cursor_row: row, cursor_col: col, ..self }
    }

    /// Writing one character at the cursor with deferred wrap: if the column
    /// already sits past the last column, the cursor first wraps to the next
    /// line (scrolling the whole screen up when it runs off the bottom), then
    /// the character is stamped with the current pen and the column advances.
    pub open spec fn spec_put_char(self, c: char) -> GridView {
        if self.cols == 0 || self.cells.len() == 0 {
            self
        } else {
            let g = if self.cursor_col >= self.cols {
                if self.cursor_row + 1 >= self.cells.len() {
                    self.spec_scroll_up(1).with_cursor((self.cells.len() - 1) as nat, 0)
                } else {
                    self.with_cursor(self.cursor_row + 1, 0)
                }
            } else {
                self
            };
            let written = GridView {
                cells: g.cells.update(
                    g.cursor_row as int,
                    g.cells[g.cursor_row as int].update(g.cursor_col as int, g.pen_cell(c)),
                ),
                ..g
            };
            written.with_cursor(g.cursor_row, (g.cursor_col + 1) as nat)
        }
    }

    /// All cells blanked and the scrollback emptied; cursor and pen stay.
    pub open spec fn spec_clear_screen(self) -> GridView {
        GridView {
            cells: blank_rows(self.cells.len(), self.cols),
            scrollback: Seq::empty(),
            ..self
        }
    }

    /// All cells blanked; the scrollback stays.
    pub open spec fn spec_clear_screen_keep_scrollback(self) -> GridView {
        GridView { cells: blank_rows(self.cells.len(), self.cols), ..self }
    }

    /// The cursor row fully blanked.
    pub open spec fn spec_clear_line(self) -> GridView {
        if self.cells.len() == 0 {
            self
        } else {
            self.with_row_cleared(self.cursor_row as int, 0, self.cols as int)
        }
    }

    /// The cursor row blanked from the cursor column to the end.
    pub open spec fn spec_clear_to_end_of_line(self) -> GridView {
        if self.cells.len() == 0 {
            self
        } else {
            self.with_row_cleared(self.cursor_row as int, self.cursor_col as int, self.cols as int)
        }
    }

    /// The cursor row blanked from the start through the cursor column
    /// (clamped to the last column).
    pub open spec fn spec_clear_to_start_of_line(self) -> GridView {
        if self.cells.len() == 0 || self.cols == 0 {
            self
        } else {
            self.with_row_cleared(
                self.cursor_row as int,
                0,
                clamp_index(self.cursor_col as int, self.cols) as int + 1,
            )
        }
    }

    /// The screen blanked from the cursor (inclusive) to the bottom-right.
    pub open spec fn spec_clear_to_end_of_screen(self) -> GridView {
        if self.cells.len() == 0 {
            self
        } else {
            GridView {
                cells: Seq::new(
                    self.cells.len(),
                    |i: int|
                        if i < self.cursor_row {
                            self.cells[i]
                        } else if i == self.cursor_row {
                            cleared_range(self.cells[i], self.cursor_col as int, self.cols as int)
                        } else {
                            blank_row(self.cols)
                        },
                ),
                ..self
            }
        }
    }

    /// The screen blanked from the top-left through the cursor (inclusive).
    pub open spec fn spec_clear_to_start_of_screen(self) -> GridView {
        if self.cells.len() == 0 {
            self
        } else {
            GridView {
                cells: Seq::new(
                    self.cells.len(),
                    |i: int|
                        if i < self.cursor_row {
                            blank_row(self.cols)
                        } else if i == self.cursor_row && self.cols > 0 {
                            cleared_range(
                                self.cells[i],
                                0,
                                clamp_index(self.cursor_col as int, self.cols) as int + 1,
                            )
                        } else {
                            self.cells[i]
                        },
                ),
                ..self
            }
        }
    }

    /// Erase-in-display dispatch: mode 0 erases to the end of the screen,
    /// mode 1 to the start, modes 2 and 3 the whole screen (both also clear
    /// the scrollback); other modes do nothing.
    pub open spec fn spec_erase_in_display(self, mode: u16) -> GridView {
        if mode == 0 {
            self.spec_clear_to_end_of_screen()
        } else if mode == 1 {
            self.spec_clear_to_start_of_screen()
        } else if mode == 2 || mode == 3 {
            self.spec_clear_screen()
        } else {
            self
        }
    }

    /// Erase-in-line dispatch: mode 0 erases to the end of the line, mode 1
    /// to the start, mode 2 the whole line; other modes do nothing.
    pub open spec fn spec_erase_in_line(self, mode: u16) -> GridView {
        if mode == 0 {
            self.spec_clear_to_end_of_line()
        } else if mode == 1 {
            self.spec_clear_to_start_of_line()
        } else if mode == 2 {
            self.spec_clear_line()
        } else {
            self
        }
    }

    /// Inserting `n` blank lines at the cursor row: lines below shift down
    /// and lines pushed off the bottom are lost.
    pub open spec fn spec_insert_lines(self, n: nat) -> GridView {
        if self.cells.len() == 0 {
            self
        } else {
            let r = self.cursor_row as int;
            let k = if n < self.cells.len() - r {
                n as int
            } else {
                self.cells.len() - r
            };
            GridView {
                cells: Seq::new(
                    self.cells.len(),
                    |i: int|
                        if i < r {
                            self.cells[i]
                        } else if i < r + k {
                            blank_row(self.cols)
                        } else {
                            self.cells[i - k]
                        },
                ),
                ..self
            }
        }
    }

    /// Deleting `n` lines at the cursor row: lines below shift up and blank
    /// lines appear at the bottom.
    pub open spec fn spec_delete_lines(self, n: nat) -> GridView {
        if self.cells.len() == 0 {
            self
        } else {
            let r = self.cursor_row as int;
            let k = if n < self.cells.len() - r {
                n as int
            } else {
                self.cells.len() - r
            };
            GridView {
                cells: Seq::new(
                    self.cells.len(),
                    |i: int|
                        if i < r {
                            self.cells[i]
                        } else if i < self.cells.len() - k {
                            self.cells[i + k]
                        } else {
                            blank_row(self.cols)
                        },
                ),
                ..self
            }
        }
    }

    /// Resizing to `new_cols` × `new_rows`: content is kept top-left
    /// anchored, new cells are blank, and the cursor is clamped into the new
    /// bounds. The scrollback is not touched.
    pub open spec fn spec_resize(self, new_cols: nat, new_rows: nat) -> GridView {
        GridView {
            cells: Seq::new(
                new_rows,
                |i: int|
                    Seq::new(
                        new_cols,
                        |j: int|
                            if i < self.cells.len() && j < self.cells[i].len() {
                                self.cells[i][j]
                            } else {
                                spec_default_cell()
                            },
                    ),
            ),
            cols: new_cols,
            cursor_row: clamp_index(self.cursor_row as int, new_rows),
            cursor_col: clamp_index(self.cursor_col as int, new_cols),
            ..self
        }
    }

    /// A full reset: blank cells, empty scrollback, cursor home, default pen.
    /// Dimensions and the scrollback cap are kept.
    pub open spec fn spec_reset(self) -> GridView {
        GridView {
            cells: blank_rows(self.cells.len(), self.cols),
            scrollback: Seq::empty(),
            cursor_row: 0,
            cursor_col: 0,
            attributes: spec_default_attributes(),
            fg: Color::Default,
            bg: Color::Default,
            ..self
        }
    }

    /// The character content of row `i`.
    pub open spec fn row_chars(row: Seq<Cell>) -> Seq<char> {
        row.map_values(|c: Cell| c.char)
    }

    /// The visible screen as text: rows joined with a newline between them.
    pub open spec fn joined_text(cells: Seq<Seq<Cell>>) -> Seq<char>
        decreases cells.len(),
    {
        if cells.len() == 0 {
            Seq::empty()
        } else if cells.len() == 1 {
            GridView::row_chars(cells[0])
        } else {
            GridView::joined_text(cells.drop_last()) + seq!['\n'] + GridView::row_chars(
                cells.last(),
            )
        }
    }

    /// A line feed inside the region `[top, bottom]`: at the region's bottom
    /// row the region scrolls up one line and the cursor stays; above the
    /// last screen row the cursor moves down; on the last screen row outside
    /// the region nothing happens.
    pub open spec fn spec_linefeed_in_region(self, top: nat, bottom: nat) -> GridView {
        if self.cursor_row == bottom {
            self.spec_region_up(1, top, bottom)
        } else if self.cursor_row + 1 < self.cells.len() {
            self.with_cursor((self.cursor_row + 1) as nat, self.cursor_col)
        } else {
            self
        }
    }

    /// Moving the cursor to `(row, col)`, clamped into the grid.
    pub open spec fn spec_move_cursor(self, row: usize, col: usize) -> GridView {
        GridView {
            cursor_row: clamp_index(row as int, self.cells.len()),
            cursor_col: clamp_index(col as int, self.cols),
            ..self
        }
    }

    /// Scroll rows `[top, bottom]` down by `n`: rows outside the region are
    /// untouched, rows leaving the bottom are discarded, and the freed top
    /// rows become blank.
    pub open spec fn spec_region_down(self, n: nat, top: nat, bottom: nat) -> GridView {
        if n == 0 || !self.region_ok(top, bottom) {
            self
        } else {
            let height = bottom - top + 1;
            let k = if n < height {
                n as int
            } else {
                height
            };
            GridView {
                cells: Seq::new(
                    self.cells.len(),
                    |i: int|
                        if i < top || i > bottom {
                            self.cells[i]
                        } else if i - k >= top {
                            self.cells[i - k]
                        } else {
                            blank_row(self.cols)
                        },
                ),
                ..self
            }
        }
    }
}

impl TerminalGrid {
    /// Scroll the screen up by n lines.
    ///
    /// Lines that scroll off the top are moved to the scrollback buffer.
    /// Note: This does NOT adjust the cursor position - callers must do that if needed.
    pub fn scroll_up(&mut self, n: usize)
        requires
            old(self).inv(),
        ensures
            final(self).inv(),
            final(self)@ == old(self)@.spec_scroll_up(n as nat),
    {
        if n == 0 || self.rows == 0 {
            return ;
        }
        let k = if n < self.rows {
            n
        } else {
            self.rows
        };
        let ghost moved = old(self)@.cells.take(k as int);

        // Move the top k rows into the scrollback, evicting oldest-first at
        // the cap. A zero-capacity scrollback retains nothing.
        let mut i: usize = 0;
        while i < k
            invariant
                self.inv(),
                i <= k <= self@.rows(),
                self.rows == old(self).rows,
                self.cols == old(self).cols,
                self.grid@ == old(self).grid@,
                self@ == (GridView {
                    scrollback: evict(
                        old(self)@.scrollback + moved.take(i as int),
                        old(self)@.max_scrollback,
                    ),
                    ..old(self)@
                }),
                moved == old(self)@.cells.take(k as int),
            decreases k - i,
        {
            let ghost pre_sb = self@.scrollback;
            let ghost combined = old(self)@.scrollback + moved.take(i as int);
            if self.max_scrollback > 0 {
                if self.scrollback.len() >= self.max_scrollback {
                    self.scrollback.remove(0);
                }
                proof {
                    assert(self@.cells[i as int] == moved[i as int]);
                }
                let row = clone_row(&self.grid[i]);
                self.scrollback.push(row);
            }
            i += 1;
            proof {
                let max = old(self)@.max_scrollback;
                let combined2 = old(self)@.scrollback + moved.take(i as int);
                assert(combined2 =~= combined.push(moved[i - 1]));
                if max == 0 {
                    assert(evict(combined2, max) =~= evict(combined, max));
                } else if pre_sb.len() >= max {
                    assert(self@.scrollback =~= pre_sb.skip(1).push(moved[i - 1]));
                    assert(evict(combined2, max) =~= pre_sb.skip(1).push(moved[i - 1]));
                } else {
                    assert(self@.scrollback =~= pre_sb.push(moved[i - 1]));
                    assert(evict(combined2, max) =~= pre_sb.push(moved[i - 1]));
                }
                assert(self@ =~= (GridView {
                    scrollback: evict(combined2, max),
                    ..old(self)@
                }));
            }
        }

        // The cached `rows` field is stale while the rows shift below: the
        // loop invariants therefore speak of the vector itself, and the full
        // invariant is re-established once the blank rows are in place.
        proof {
            assert(moved.take(k as int) =~= moved);
            assert(self.grid@ =~= old(self).grid@.skip(0));
        }
        let ghost sb_final = evict(old(self)@.scrollback + moved, old(self)@.max_scrollback);

        // Shift the remaining rows up by removing the top k rows.
        let mut j: usize = 0;
        while j < k
            invariant
                j <= k <= old(self)@.rows(),
                self.rows == old(self).rows,
                self.cols == old(self).cols,
                self.cursor == old(self).cursor,
                self.max_scrollback == old(self).max_scrollback,
                self.attributes == old(self).attributes,
                self.fg_color == old(self).fg_color,
                self.bg_color == old(self).bg_color,
                self.scrollback@.map_values(|r: Vec<Cell>| r@) == sb_final,
                self.scrollback@.len() <= self.max_scrollback,
                self.grid@ == old(self).grid@.skip(j as int),
            decreases k - j,
        {
            self.grid.remove(0);
            j += 1;
            proof {
                assert(self.grid@ =~= old(self).grid@.skip(j as int));
            }
        }

        // Add new empty rows at the bottom.
        let mut b: usize = 0;
        while b < k
            invariant
                b <= k <= old(self)@.rows(),
                self.rows == old(self).rows,
                self.cols == old(self).cols,
                self.cursor == old(self).cursor,
                self.max_scrollback == old(self).max_scrollback,
                self.attributes == old(self).attributes,
                self.fg_color == old(self).fg_color,
                self.bg_color == old(self).bg_color,
                self.scrollback@.map_values(|r: Vec<Cell>| r@) == sb_final,
                self.scrollback@.len() <= self.max_scrollback,
                self.grid@.len() == old(self)@.rows() - k + b,
                forall|t: int|
                    0 <= t < old(self)@.rows() - k ==> self.grid@[t] == old(self).grid@[t + k],
                forall|t: int|
                    old(self)@.rows() - k <= t < self.grid@.len() ==> (#[trigger] self.grid@[t])@
                        == blank_row(old(self)@.cols),
            decreases k - b,
        {
            let fresh_row = blank_row_vec(self.cols);
            self.grid.push(fresh_row);
            b += 1;
        }
        proof {
            assert(self@.cells =~= old(self)@.cells.skip(k as int) + blank_rows(
                k as nat,
                old(self)@.cols,
            ));
            assert(self@ =~= old(self)@.spec_scroll_up(n as nat));
        }
    }

    /// Scroll the screen down by n lines.
    ///
    /// This is the opposite of scroll_up - new lines appear at the top.
    /// The cursor row is carried down with the content.
    pub fn scroll_down(&mut self, n: usize)
        requires
            old(self).inv(),
        ensures
            final(self).inv(),
            final(self)@ == old(self)@.spec_scroll_down(n as nat),
    {
        if n == 0 || self.rows == 0 {
            return ;
        }
        let k = if n < self.rows {
            n
        } else {
            self.rows
        };
        let orig_row = self.cursor.row;
        proof {
            assert(self.grid@ =~= old(self).grid@.take(old(self)@.rows() as int - 0));
        }

        // Remove rows from the bottom. The cached `rows` field is stale until
        // the blank rows are inserted, so the invariants track the vector.
        let mut j: usize = 0;
        while j < k
            invariant
                j <= k <= old(self)@.rows(),
                self.rows == old(self).rows,
                self.cols == old(self).cols,
                self.cursor == old(self).cursor,
                self.max_scrollback == old(self).max_scrollback,
                self.attributes == old(self).attributes,
                self.fg_color == old(self).fg_color,
                self.bg_color == old(self).bg_color,
                self.scrollback@ == old(self).scrollback@,
                self.grid@ == old(self).grid@.take(old(self)@.rows() - j),
            decreases k - j,
        {
            self.grid.pop();
            j += 1;
            proof {
                assert(self.grid@ =~= old(self).grid@.take(old(self)@.rows() - j));
            }
        }
        // Insert blank rows at the top.
        let mut b: usize = 0;
        while b < k
            invariant
                b <= k <= old(self)@.rows(),
                self.rows == old(self).rows,
                self.cols == old(self).cols,
                self.cursor == old(self).cursor,
                self.max_scrollback == old(self).max_scrollback,
                self.attributes == old(self).attributes,
                self.fg_color == old(self).fg_color,
                self.bg_color == old(self).bg_color,
                self.scrollback@ == old(self).scrollback@,
                self.grid@.len() == old(self)@.rows() - k + b,
                forall|t: int|
                    b <= t < self.grid@.len() ==> self.grid@[t] == old(self).grid@[t - b],
                forall|t: int|
                    0 <= t < b ==> (#[trigger] self.grid@[t])@ == blank_row(old(self)@.cols),
            decreases k - b,
        {
            let fresh_row = blank_row_vec(self.cols);
            self.grid.insert(0, fresh_row);
            b += 1;
        }
        // Carry the cursor down with the content.
        let target = orig_row.saturating_add(k);
        self.cursor.row = if target < self.rows {
            target
        } else {
            self.rows - 1
        };
        proof {
            assert(self@.cells =~= blank_rows(k as nat, old(self)@.cols) + old(self)@.cells.take(
                old(self)@.rows() - k,
            ));
            assert(self@ =~= old(self)@.spec_scroll_down(n as nat));
        }
    }

    /// Rebuilds the visible grid so that row `i` holds the row given by
    /// `target[i]`; used by the region scrolls and line insertion/deletion,
    /// which permute rows and blank the freed ones.
    fn rebuild_rows(&mut self, Ghost(target): Ghost<Seq<Seq<Cell>>>, plan: &RowPlan)
        requires
            old(self).inv(),
            target.len() == old(self)@.rows(),
            plan.wf(old(self)@),
            forall|i: int|
                0 <= i < target.len() ==> #[trigger] target[i] == plan.spec_row(old(self)@, i),
        ensures
            final(self).inv(),
            final(self)@ == (GridView { cells: target, ..old(self)@ }),
    {
        let mut new_grid: Vec<Vec<Cell>> = Vec::new();
        let mut i: usize = 0;
        while i < self.rows
            invariant
                *self == *old(self),
                self.inv(),
                i <= self@.rows(),
                target.len() == self@.rows(),
                plan.wf(self@),
                forall|t: int| 0 <= t < target.len() ==> #[trigger] target[t] == plan.spec_row(
                    self@,
                    t,
                ),
                new_grid@.len() == i,
                forall|t: int| 0 <= t < i ==> (#[trigger] new_grid@[t])@ == target[t],
            decreases self@.rows() - i,
        {
            let row = plan.build_row(self, i);
            new_grid.push(row);
            i += 1;
        }
        self.grid = new_grid;
        proof {
            assert(self@.cells =~= target);
            assert(self@ =~= (GridView { cells: target, ..old(self)@ }));
        }
    }

    /// Scroll a region of the screen up by n lines.
    ///
    /// Only lines within [top, bottom] are affected. Lines above `top` and
    /// below `bottom` remain unchanged. The bottom `n` lines of the region
    /// are cleared. Rows scrolled out of the region are discarded, never
    /// sent to the scrollback.
    ///
    /// # Arguments
    /// * `n` - Number of lines to scroll
    /// * `top` - Top boundary of scroll region (0-indexed, inclusive)
    /// * `bottom` - Bottom boundary of scroll region (0-indexed, inclusive)
    pub fn scroll_up_in_region(&mut self, n: usize, top: usize, bottom: usize)
        requires
            old(self).inv(),
        ensures
            final(self).inv(),
            final(self)@ == old(self)@.spec_region_up(n as nat, top as nat, bottom as nat),
    {
        if n == 0 || self.rows == 0 || top >= bottom || bottom >= self.rows {
            return ;
        }
        let height = bottom - top + 1;
        let k = if n < height {
            n
        } else {
            height
        };
        let plan = RowPlan::RegionUp { k, top, bottom };
        let ghost target = old(self)@.spec_region_up(n as nat, top as nat, bottom as nat).cells;
        self.rebuild_rows(Ghost(target), &plan);
    }

    /// Scroll a region of the screen down by n lines.
    ///
    /// Only lines within [top, bottom] are affected. Lines above `top` and
    /// below `bottom` remain unchanged. The top `n` lines of the region
    /// are cleared.
    ///
    /// # Arguments
    /// * `n` - Number of lines to scroll
    /// * `top` - Top boundary of scroll region (0-indexed, inclusive)
    /// * `bottom` - Bottom boundary of scroll region (0-indexed, inclusive)
    pub fn scroll_down_in_region(&mut self, n: usize, top: usize, bottom: usize)
        requires
            old(self).inv(),
        ensures
            final(self).inv(),
            final(self)@ == old(self)@.spec_region_down(n as nat, top as nat, bottom as nat),
    {
        if n == 0 || self.rows == 0 || top >= bottom || bottom >= self.rows {
            return ;
        }
        let height = bottom - top + 1;
        let k = if n < height {
            n
        } else {
            height
        };
        let plan = RowPlan::RegionDown { k, top, bottom };
        let ghost target = old(self)@.spec_region_down(n as nat, top as nat, bottom as nat).cells;
        self.rebuild_rows(Ghost(target), &plan);
    }

    /// Perform a line feed within a scroll region.
    ///
    /// If cursor is at the bottom of the region, scroll the region up.
    /// Otherwise, just move the cursor down (if not already on the last row).
    pub fn linefeed_in_region(&mut self, top: usize, bottom: usize)
        requires
            old(self).inv(),
        ensures
            final(self).inv(),
            final(self)@ == old(self)@.spec_linefeed_in_region(top as nat, bottom as nat),
    {
        if self.cursor.row == bottom {
            // At bottom of region, scroll up
            self.scroll_up_in_region(1, top, bottom);
        } else if self.rows > 0 && self.cursor.row < self.rows - 1 {
            self.cursor.row = self.cursor.row + 1;
        }
        proof {
            if old(self)@.cursor_row != bottom && old(self)@.cursor_row + 1 < old(self)@.rows() {
                assert(self@ =~= old(self)@.with_cursor(
                    old(self)@.cursor_row + 1,
                    old(self)@.cursor_col,
                ));
            }
        }
    }

    /// Insert n blank lines at the cursor position.
    ///
    /// Lines below the cursor are shifted down, and lines that fall off
    /// the bottom are lost.
    pub fn insert_lines(&mut self, n: usize)
        requires
            old(self).inv(),
        ensures
            final(self).inv(),
            final(self)@ == old(self)@.spec_insert_lines(n as nat),
    {
        if self.cursor.row >= self.rows {
            return ;
        }
        let avail = self.rows - self.cursor.row;
        let k = if n < avail {
            n
        } else {
            avail
        };
        let plan = RowPlan::Insert { k, at: self.cursor.row };
        let ghost target = old(self)@.spec_insert_lines(n as nat).cells;
        self.rebuild_rows(Ghost(target), &plan);
    }

    /// Delete n lines at the cursor position.
    ///
    /// Lines below the deleted lines are shifted up, and blank lines
    /// appear at the bottom.
    pub fn delete_lines(&mut self, n: usize)
        requires
            old(self).inv(),
        ensures
            final(self).inv(),
            final(self)@ == old(self)@.spec_delete_lines(n as nat),
    {
        if self.cursor.row >= self.rows {
            return ;
        }
        let avail = self.rows - self.cursor.row;
        let k = if n < avail {
            n
        } else {
            avail
        };
        let plan = RowPlan::Delete { k, at: self.cursor.row };
        let ghost target = old(self)@.spec_delete_lines(n as nat).cells;
        self.rebuild_rows(Ghost(target), &plan);
    }

    /// Put a character at the current cursor position and advance the cursor.
    ///
    /// If at the end of a line (cursor past last column), this wraps to the next line first.
    /// If at the bottom of the screen, this scrolls up.
    pub fn put_char(&mut self, c: char)
        requires
            old(self).inv(),
        ensures
            final(self).inv(),
            final(self)@ == old(self)@.spec_put_char(c),
    {
        if self.cols == 0 || self.rows == 0 {
            return ;
        }
        // Handle pending wrap (cursor past last column)
        if self.cursor.col >= self.cols {
            self.cursor.col = 0;
            if self.cursor.row >= self.rows - 1 {
                self.scroll_up(1);
                self.cursor.row = self.rows - 1;
            } else {
                self.cursor.row = self.cursor.row + 1;
            }
        }
        // Write the character at the cursor with the current pen state
        let row = self.cursor.row;
        let col = self.cursor.col;
        let cell = Cell {
            char: c,
            fg_color: self.fg_color,
            bg_color: self.bg_color,
            attributes: self.attributes,
        };
        self.set_cell_at(row, col, cell);
        // Advance cursor
        self.cursor.col = col + 1;
        proof {
            assert(self@ =~= old(self)@.spec_put_char(c));
        }
    }

    /// Erase in display with mode.
    ///
    /// Mode 0: Erase from cursor to end of screen
    /// Mode 1: Erase from start of screen to cursor
    /// Mode 2: Erase entire screen
    /// Mode 3: Erase entire screen and scrollback
    pub fn erase_in_display(&mut self, mode: u16)
        requires
            old(self).inv(),
        ensures
            final(self).inv(),
            final(self)@ == old(self)@.spec_erase_in_display(mode),
    {
        if mode == 0 {
            self.clear_to_end_of_screen();
        } else if mode == 1 {
            self.clear_to_start_of_screen();
        } else if mode == 2 || mode == 3 {
            self.clear_screen();
        }
    }

    /// Erase in line with mode.
    ///
    /// Mode 0: Erase from cursor to end of line
    /// Mode 1: Erase from start of line to cursor
    /// Mode 2: Erase entire line
    pub fn erase_in_line(&mut self, mode: u16)
        requires
            old(self).inv(),
        ensures
            final(self).inv(),
            final(self)@ == old(self)@.spec_erase_in_line(mode),
    {
        if mode == 0 {
            self.clear_to_end_of_line();
        } else if mode == 1 {
            self.clear_to_start_of_line();
        } else if mode == 2 {
            self.clear_line();
        }
    }

    /// Perform a line feed (move cursor down, scrolling the whole screen if
    /// at the bottom).
    pub fn linefeed(&mut self)
        requires
            old(self).inv(),
        ensures
            final(self).inv(),
            old(self)@.cursor_row + 1 < old(self)@.rows() ==> final(self)@ == old(self)@.with_cursor(
                old(self)@.cursor_row + 1,
                old(self)@.cursor_col,
            ),
            old(self)@.cursor_row + 1 >= old(self)@.rows() ==> final(self)@ == old(
                self,
            )@.spec_scroll_up(1),
    {
        if self.rows > 0 && self.cursor.row < self.rows - 1 {
            self.cursor.row = self.cursor.row + 1;
            proof {
                assert(self@ =~= old(self)@.with_cursor(
                    old(self)@.cursor_row + 1,
                    old(self)@.cursor_col,
                ));
            }
        } else {
            self.scroll_up(1);
        }
    }

    /// Perform a carriage return (move cursor to column 0).
    pub fn carriage_return(&mut self)
        requires
            old(self).inv(),
        ensures
            final(self).inv(),
            final(self)@ == old(self)@.with_cursor(old(self)@.cursor_row, 0),
    {
        self.cursor.col = 0;
        proof {
            assert(self@ =~= old(self)@.with_cursor(old(self)@.cursor_row, 0));
        }
    }

    /// Backspace (move cursor left by one, but not past column 0).
    pub fn backspace(&mut self)
        requires
            old(self).inv(),
        ensures
            final(self).inv(),
            final(self)@ == old(self)@.with_cursor(
                old(self)@.cursor_row,
                if old(self)@.cursor_col == 0 {
                    0
                } else {
                    (old(self)@.cursor_col - 1) as nat
                },
            ),
    {
        self.cursor.col = self.cursor.col.saturating_sub(1);
        proof {
            assert(self@ =~= old(self)@.with_cursor(
                old(self)@.cursor_row,
                if old(self)@.cursor_col == 0 {
                    0
                } else {
                    (old(self)@.cursor_col - 1) as nat
                },
            ));
        }
    }

    /// Tab (move cursor to next tab stop, every 8 columns, clamped to the
    /// last column).
    pub fn tab(&mut self)
        requires
            old(self).inv(),
        ensures
            final(self).inv(),
            final(self)@ == old(self)@.with_cursor(
                old(self)@.cursor_row,
                spec_next_tab_stop(old(self)@.cursor_col, old(self)@.cols),
            ),
    {
        if self.cols == 0 {
            proof {
                assert(self@ =~= old(self)@.with_cursor(
                    old(self)@.cursor_row,
                    spec_next_tab_stop(old(self)@.cursor_col, old(self)@.cols),
                ));
            }
            return ;
        }
        let stop = (self.cursor.col / 8 + 1).checked_mul(8);
        self.cursor.col = match stop {
            Some(v) => if v < self.cols {
                v
            } else {
                self.cols - 1
            },
            None => self.cols - 1,
        };
        proof {
            assert(self@ =~= old(self)@.with_cursor(
                old(self)@.cursor_row,
                spec_next_tab_stop(old(self)@.cursor_col, old(self)@.cols),
            ));
        }
    }

    /// Back tab (move cursor to previous tab stop).
    pub fn back_tab(&mut self)
        requires
            old(self).inv(),
        ensures
            final(self).inv(),
            final(self)@ == old(self)@.with_cursor(
                old(self)@.cursor_row,
                spec_prev_tab_stop(old(self)@.cursor_col),
            ),
    {
        let base = self.cursor.col.saturating_sub(1);
        proof {
            assert((base / 8) * 8 <= base) by (nonlinear_arith)
                requires
                    base >= 0,
            ;
        }
        self.cursor.col = (base / 8) * 8;
        proof {
            assert(self@ =~= old(self)@.with_cursor(
                old(self)@.cursor_row,
                spec_prev_tab_stop(old(self)@.cursor_col),
            ));
        }
    }

    /// Resize the terminal grid.
    ///
    /// Content is preserved where possible. New cells are initialized to default.
    pub fn resize(&mut self, new_cols: usize, new_rows: usize)
        requires
            old(self).inv(),
        ensures
            final(self).inv(),
            final(self)@ == old(self)@.spec_resize(new_cols as nat, new_rows as nat),
    {
        let ghost target = old(self)@.spec_resize(new_cols as nat, new_rows as nat).cells;
        let mut new_grid: Vec<Vec<Cell>> = Vec::new();
        let mut i: usize = 0;
        while i < new_rows
            invariant
                *self == *old(self),
                self.inv(),
                i <= new_rows,
                target == old(self)@.spec_resize(new_cols as nat, new_rows as nat).cells,
                new_grid@.len() == i,
                forall|t: int| 0 <= t < i ==> (#[trigger] new_grid@[t])@ == target[t],
            decreases new_rows - i,
        {
            let mut line: Vec<Cell> = Vec::new();
            let mut j: usize = 0;
            while j < new_cols
                invariant
                    *self == *old(self),
                    self.inv(),
                    i < new_rows,
                    j <= new_cols,
                    target == old(self)@.spec_resize(new_cols as nat, new_rows as nat).cells,
                    line@.len() == j,
                    forall|t: int| 0 <= t < j ==> line@[t] == target[i as int][t],
                decreases new_cols - j,
            {
                let cell = if i < self.rows && j < self.cols {
                    proof {
                        assert(self@.cells[i as int].len() == self@.cols);
                    }
                    self.grid[i][j]
                } else {
                    Cell::default()
                };
                line.push(cell);
                j += 1;
            }
            proof {
                assert(line@ =~= target[i as int]);
            }
            new_grid.push(line);
            i += 1;
        }
        self.grid = new_grid;
        self.cols = new_cols;
        self.rows = new_rows;
        // Clamp cursor to new dimensions
        self.cursor.row = if self.cursor.row < new_rows {
            self.cursor.row
        } else if new_rows == 0 {
            0
        } else {
            new_rows - 1
        };
        self.cursor.col = if self.cursor.col < new_cols {
            self.cursor.col
        } else if new_cols == 0 {
            0
        } else {
            new_cols - 1
        };
        proof {
            assert(self@.cells =~= target);
            assert(self@ =~= old(self)@.spec_resize(new_cols as nat, new_rows as nat));
        }
    }

    /// Save the current cursor position and pen state as an opaque token.
    pub fn save_cursor(&mut self) -> (r: (Cursor, TextAttributes, Color, Color))
        requires
            old(self).inv(),
        ensures
            final(self).inv(),
            *final(self) == *old(self),
            r.0.row == old(self)@.cursor_row,
            r.0.col == old(self)@.cursor_col,
            r.1 == old(self)@.attributes,
            r.2 == old(self)@.fg,
            r.3 == old(self)@.bg,
    {
        (self.cursor, self.attributes, self.fg_color, self.bg_color)
    }

    /// Restore a previously saved cursor position and attributes.
    ///
    /// The restored position is clamped into the current bounds, in case the
    /// grid was resized since the save.
    pub fn restore_cursor(&mut self, saved: (Cursor, TextAttributes, Color, Color))
        requires
            old(self).inv(),
        ensures
            final(self).inv(),
            final(self)@ == (GridView {
                cursor_row: clamp_index(saved.0.row as int, old(self)@.rows()),
                cursor_col: clamp_index(saved.0.col as int, old(self)@.cols),
                attributes: saved.1,
                fg: saved.2,
                bg: saved.3,
                ..old(self)@
            }),
    {
        self.cursor.row = if saved.0.row < self.rows {
            saved.0.row
        } else if self.rows == 0 {
            0
        } else {
            self.rows - 1
        };
        self.cursor.col = if saved.0.col < self.cols {
            saved.0.col
        } else if self.cols == 0 {
            0
        } else {
            self.cols - 1
        };
        self.attributes = saved.1;
        self.fg_color = saved.2;
        self.bg_color = saved.3;
    }

    /// Reset the grid to initial state: blank cells, empty scrollback,
    /// cursor home, default pen.
    pub fn reset(&mut self)
        requires
            old(self).inv(),
        ensures
            final(self).inv(),
            final(self)@ == old(self)@.spec_reset(),
    {
        self.clear_screen();
        self.cursor = Cursor::default();
        self.attributes = TextAttributes::default();
        self.fg_color = Color::Default;
        self.bg_color = Color::Default;
        proof {
            assert(self@ =~= old(self)@.spec_reset());
        }
    }

    /// Get the entire visible grid as a slice of rows.
    pub fn as_rows(&self) -> (r: &[Vec<Cell>])
        ensures
            r@.map_values(|v: Vec<Cell>| v@) == self@.cells,
    {
        self.grid.as_slice()
    }

    /// Get the scrollback buffer.
    pub fn scrollback(&self) -> (r: &[ScrollbackRow])
        ensures
            r@.map_values(|v: Vec<Cell>| v@) == self@.scrollback,
    {
        self.scrollback.as_slice()
    }

    /// Get the content of a row as a string.
    pub fn row_to_string(&self, row: usize) -> (r: String)
        requires
            self.inv(),
        ensures
            row < self@.rows() ==> r@ == GridView::row_chars(self@.cells[row as int]),
            row >= self@.rows() ==> r@ == Seq::<char>::empty(),
    {
        if row >= self.rows {
            return String::new();
        }
        proof {
            assert(self@.cells[row as int].len() == self@.cols);
        }
        let mut out = String::new();
        let mut j: usize = 0;
        while j < self.cols
            invariant
                self.inv(),
                row < self@.rows(),
                j <= self@.cols,
                self@.cells[row as int].len() == self@.cols,
                out@ == GridView::row_chars(self@.cells[row as int]).take(j as int),
            decreases self@.cols - j,
        {
            let c = self.grid[row][j].char;
            crate::util::push_char(&mut out, c);
            j += 1;
            proof {
                assert(out@ =~= GridView::row_chars(self@.cells[row as int]).take(j as int));
            }
        }
        proof {
            assert(GridView::row_chars(self@.cells[row as int]).take(self@.cols as int)
                =~= GridView::row_chars(self@.cells[row as int]));
        }
        out
    }

    /// The visible screen as text, rows joined with newlines.
    pub fn to_string(&self) -> (r: String)
        requires
            self.inv(),
        ensures
            r@ == GridView::joined_text(self@.cells),
    {
        let mut out = String::new();
        let mut i: usize = 0;
        proof {
            assert(self@.cells.take(0) =~= Seq::<Seq<Cell>>::empty());
        }
        while i < self.rows
            invariant
                self.inv(),
                i <= self@.rows(),
                out@ == GridView::joined_text(self@.cells.take(i as int)),
            decreases self@.rows() - i,
        {
            if i > 0 {
                crate::util::push_char(&mut out, '\n');
            }
            proof {
                assert(self@.cells[i as int].len() == self@.cols);
            }
            let mut j: usize = 0;
            let ghost row_start = out@;
            while j < self.cols
                invariant
                    self.inv(),
                    i < self@.rows(),
                    j <= self@.cols,
                    self@.cells[i as int].len() == self@.cols,
                    out@ == row_start + GridView::row_chars(self@.cells[i as int]).take(j as int),
                decreases self@.cols - j,
            {
                let c = self.grid[i][j].char;
                crate::util::push_char(&mut out, c);
                j += 1;
                proof {
                    assert(out@ =~= row_start + GridView::row_chars(self@.cells[i as int]).take(
                        j as int,
                    ));
                }
            }
            i += 1;
            proof {
                let cells = self@.cells;
                let taken = cells.take(i as int);
                assert(taken.drop_last() =~= cells.take(i as int - 1));
                assert(GridView::row_chars(cells[i as int - 1]).take(self@.cols as int)
                    =~= GridView::row_chars(cells[i as int - 1]));
                if i == 1 {
                    assert(out@ =~= GridView::joined_text(taken));
                } else {
                    assert(out@ =~= GridView::joined_text(taken));
                }
            }
        }
        proof {
            assert(self@.cells.take(self@.rows() as int) =~= self@.cells);
        }
        out
    }
}

/// A rule for rebuilding the grid row by row: which source row (or a blank)
/// lands at each destination index. Each variant mirrors one row-permuting
/// operation.
enum RowPlan {
    /// Region scroll up: rows in `[top, bottom]` shift up by `k`.
    RegionUp { k: usize, top: usize, bottom: usize },
    /// Region scroll down: rows in `[top, bottom]` shift down by `k`.
    RegionDown { k: usize, top: usize, bottom: usize },
    /// `k` blank lines inserted at row `at`.
    Insert { k: usize, at: usize },
    /// `k` lines deleted at row `at`.
    Delete { k: usize, at: usize },
}

impl RowPlan {
    /// The plan's parameters are consistent with the grid it is applied to.
    spec fn wf(&self, g: GridView) -> bool {
        match *self {
            RowPlan::RegionUp { k, top, bottom } => top < bottom && bottom < g.cells.len() && 1
                <= k <= bottom - top + 1,
            RowPlan::RegionDown { k, top, bottom } => top < bottom && bottom < g.cells.len() && 1
                <= k <= bottom - top + 1,
            RowPlan::Insert { k, at } => at < g.cells.len() && k <= g.cells.len() - at,
            RowPlan::Delete { k, at } => at < g.cells.len() && k <= g.cells.len() - at,
        }
    }

    /// The row that lands at destination index `i`.
    spec fn spec_row(&self, g: GridView, i: int) -> Seq<Cell> {
        match *self {
            RowPlan::RegionUp { k, top, bottom } => if i < top || i > bottom {
                g.cells[i]
            } else if i + k <= bottom {
                g.cells[i + k]
            } else {
                blank_row(g.cols)
            },
            RowPlan::RegionDown { k, top, bottom } => if i < top || i > bottom {
                g.cells[i]
            } else if i - k >= top {
                g.cells[i - k]
            } else {
                blank_row(g.cols)
            },
            RowPlan::Insert { k, at } => if i < at {
                g.cells[i]
            } else if i < at + k {
                blank_row(g.cols)
            } else {
                g.cells[i - k]
            },
            RowPlan::Delete { k, at } => if i < at {
                g.cells[i]
            } else if i < g.cells.len() - k {
                g.cells[i + k]
            } else {
                blank_row(g.cols)
            },
        }
    }

    /// Builds the row for destination index `i`.
    fn build_row(&self, g: &TerminalGrid, i: usize) -> (r: Vec<Cell>)
        requires
            g.inv(),
            self.wf(g@),
            i < g@.rows(),
        ensures
            r@ == self.spec_row(g@, i as int),
    {
        match *self {
            RowPlan::RegionUp { k, top, bottom } => {
                if i < top || i > bottom {
                    clone_row(&g.grid[i])
                } else if k <= bottom - i {
                    clone_row(&g.grid[i + k])
                } else {
                    blank_row_vec(g.cols)
                }
            },
            RowPlan::RegionDown { k, top, bottom } => {
                if i < top || i > bottom {
                    clone_row(&g.grid[i])
                } else if i >= top + k {
                    clone_row(&g.grid[i - k])
                } else {
                    blank_row_vec(g.cols)
                }
            },
            RowPlan::Insert { k, at } => {
                if i < at {
                    clone_row(&g.grid[i])
                } else if i < at + k {
                    blank_row_vec(g.cols)
                } else {
                    clone_row(&g.grid[i - k])
                }
            },
            RowPlan::Delete { k, at } => {
                if i < at {
                    clone_row(&g.grid[i])
                } else if k <= g.grid.len() - 1 - i {
                    clone_row(&g.grid[i + k])
                } else {
                    blank_row_vec(g.cols)
                }
            },
        }
    }
}

/// The next multiple-of-8 tab stop after `col`, clamped to the last column;
/// with no columns the cursor stays put.
pub open spec fn spec_next_tab_stop(col: nat, cols: nat) -> nat {
    if cols == 0 {
        col
    } else {
        let t = (col / 8 + 1) * 8;
        if t >= cols {
            (cols - 1) as nat
        } else {
            t as nat
        }
    }
}

/// The previous multiple-of-8 tab stop before `col` (column 0 stays at 0).
pub open spec fn spec_prev_tab_stop(col: nat) -> nat {
    let base = if col == 0 {
        0
    } else {
        (col - 1) as nat
    };
    ((base / 8) * 8) as nat
}

/// The grid after writing the characters of `cs` one by one.
pub open spec fn put_chars(g: GridView, cs: Seq<char>) -> GridView
    decreases cs.len(),
{
    if cs.len() == 0 {
        g
    } else {
        put_chars(g.spec_put_char(cs[0]), cs.skip(1))
    }
}

/// Writing characters that fit on the current line moves only the cursor
/// column and stamps exactly the written cells; everything else — other
/// cells, the scrollback, the pen — is untouched.
pub proof fn lemma_put_chars_no_wrap(g: GridView, cs: Seq<char>)
    requires
        g.wf(),
        g.cells.len() > 0,
        g.cursor_col + cs.len() <= g.cols,
    ensures
        ({
            let h = put_chars(g, cs);
            &&& h.wf()
            &&& h.cursor_row == g.cursor_row
            &&& h.cursor_col == g.cursor_col + cs.len()
            &&& h.cols == g.cols
            &&& h.cells.len() == g.cells.len()
            &&& h.scrollback == g.scrollback
            &&& h.max_scrollback == g.max_scrollback
            &&& h.attributes == g.attributes
            &&& h.fg == g.fg
            &&& h.bg == g.bg
            &&& forall|j: int|
                0 <= j < cs.len() ==> h.cells[g.cursor_row as int][g.cursor_col + j] == g.pen_cell(
                    cs[j],
                )
            &&& forall|i: int, j: int|
                0 <= i < g.cells.len() && 0 <= j < g.cols && !(i == g.cursor_row && g.cursor_col
                    <= j < g.cursor_col + cs.len()) ==> h.cells[i][j] == g.cells[i][j]
        }),
    decreases cs.len(),
{
    if cs.len() > 0 {
        let g1 = g.spec_put_char(cs[0]);
        assert(g.cursor_col < g.cols);
        assert(g1.cells[g.cursor_row as int][g.cursor_col as int] == g.pen_cell(cs[0]));
        assert(g1.wf());
        lemma_put_chars_no_wrap(g1, cs.skip(1));
        let h = put_chars(g, cs);
        assert(h == put_chars(g1, cs.skip(1)));
        assert forall|j: int| 0 <= j < cs.len() implies h.cells[g.cursor_row as int][g.cursor_col
            + j] == g.pen_cell(cs[j]) by {
            if j == 0 {
                assert(h.cells[g.cursor_row as int][g.cursor_col as int] == g1.cells[
                    g.cursor_row as int][g.cursor_col as int]);
            } else {
                assert(cs.skip(1)[j - 1] == cs[j]);
                assert(h.cells[g1.cursor_row as int][g1.cursor_col + (j - 1)] == g1.pen_cell(
                    cs.skip(1)[j - 1],
                ));
            }
        }
    }
}

/// Wrap invariant: from column 0, writing exactly `cols` characters leaves
/// the cursor at `(row, cols)` — the pending-wrap position — and one more
/// character wraps to `(row + 1, 1)`, leaving the just-written row intact.
pub proof fn lemma_wrap_invariant(g: GridView, cs: Seq<char>, c: char)
    requires
        g.wf(),
        g.cols > 0,
        g.cursor_col == 0,
        cs.len() == g.cols,
        g.cursor_row + 1 < g.cells.len(),
    ensures
        ({
            let h = put_chars(g, cs);
            let h2 = h.spec_put_char(c);
            &&& h.cursor_row == g.cursor_row
            &&& h.cursor_col == g.cols
            &&& h2.cursor_row == g.cursor_row + 1
            &&& h2.cursor_col == 1
            &&& forall|j: int|
                0 <= j < g.cols ==> h2.cells[g.cursor_row as int][j] == g.pen_cell(cs[j])
            &&& h2.cells[g.cursor_row as int + 1][0] == g.pen_cell(c)
        }),
{
    lemma_put_chars_no_wrap(g, cs);
    let h = put_chars(g, cs);
    let h2 = h.spec_put_char(c);
    assert(h.cursor_col >= h.cols);
    assert(h.cursor_row + 1 < h.cells.len());
}

/// The grid after `m` whole-screen scrolls by one line each.
pub open spec fn iter_scroll_up1(g: GridView, m: nat) -> GridView
    decreases m,
{
    if m == 0 {
        g
    } else {
        iter_scroll_up1(g, (m - 1) as nat).spec_scroll_up(1)
    }
}

/// The rows scrolled off the top over `m` single-line scrolls, oldest first.
pub open spec fn scrolled_rows(g: GridView, m: nat) -> Seq<Seq<Cell>>
    decreases m,
{
    if m == 0 {
        Seq::empty()
    } else {
        scrolled_rows(g, (m - 1) as nat) + iter_scroll_up1(g, (m - 1) as nat).cells.take(1)
    }
}

/// Evicting after an append is the same as evicting once at the end.
proof fn lemma_evict_append(x: Seq<Seq<Cell>>, y: Seq<Seq<Cell>>, max: nat)
    ensures
        evict(evict(x, max) + y, max) == evict(x + y, max),
{
    let e = evict(x, max);
    if x.len() > max {
        assert(e =~= x.skip(x.len() - max));
        if (e + y).len() > max {
            assert(evict(e + y, max) =~= evict(x + y, max));
        } else {
            assert(evict(e + y, max) =~= evict(x + y, max));
        }
    } else {
        if (x + y).len() > max {
            assert(evict(e + y, max) =~= evict(x + y, max));
        } else {
            assert(evict(e + y, max) =~= evict(x + y, max));
        }
    }
}

/// Scrollback invariant: however many single-line scrolls happen, the
/// scrollback holds exactly the newest `max_scrollback` of the rows ever
/// scrolled out (after the initial content), and its length is the total
/// pushed, capped at `max_scrollback`.
pub proof fn lemma_scrollback_invariant(g: GridView, m: nat)
    requires
        g.wf(),
        g.cells.len() > 0,
    ensures
        ({
            let h = iter_scroll_up1(g, m);
            &&& h.wf()
            &&& h.cells.len() == g.cells.len()
            &&& h.max_scrollback == g.max_scrollback
            &&& h.scrollback == evict(g.scrollback + scrolled_rows(g, m), g.max_scrollback)
            &&& h.scrollback.len() == (if g.scrollback.len() + m <= g.max_scrollback {
                (g.scrollback.len() + m) as int
            } else {
                g.max_scrollback as int
            })
        }),
    decreases m,
{
    if m == 0 {
        assert(g.scrollback + scrolled_rows(g, 0) =~= g.scrollback);
    } else {
        lemma_scrollback_invariant(g, (m - 1) as nat);
        let hp = iter_scroll_up1(g, (m - 1) as nat);
        let h = hp.spec_scroll_up(1);
        assert(h.scrollback == evict(hp.scrollback + hp.cells.take(1), hp.max_scrollback));
        lemma_evict_append(
            g.scrollback + scrolled_rows(g, (m - 1) as nat),
            hp.cells.take(1),
            g.max_scrollback,
        );
        assert(g.scrollback + scrolled_rows(g, m) =~= (g.scrollback + scrolled_rows(
            g,
            (m - 1) as nat,
        )) + hp.cells.take(1));
    }
}

/// Region isolation: a region scroll, up or down, leaves every row outside
/// `[top, bottom]` exactly as it was.
pub proof fn lemma_region_isolation(g: GridView, n: nat, top: nat, bottom: nat, i: int)
    requires
        g.wf(),
        0 <= i < g.cells.len(),
        i < top || i > bottom,
    ensures
        g.spec_region_up(n, top, bottom).cells[i] == g.cells[i],
        g.spec_region_down(n, top, bottom).cells[i] == g.cells[i],
{
}

/// Clamping: moving the cursor to coordinates at or beyond the grid bounds
/// always lands it on the bottom-right cell.
pub proof fn lemma_move_cursor_clamps(g: GridView, row: int, col: int)
    requires
        g.wf(),
        g.cells.len() > 0,
        g.cols > 0,
        row >= g.cells.len(),
        col >= g.cols,
    ensures
        clamp_index(row, g.rows()) == g.cells.len() - 1,
        clamp_index(col, g.cols) == g.cols - 1,
{
}

/// Resetting twice gives the same grid as resetting once.
pub proof fn lemma_reset_idempotent(g: GridView)
    ensures
        g.spec_reset().spec_reset() == g.spec_reset(),
{
    assert(g.spec_reset().spec_reset() =~= g.spec_reset());
}

impl Default for TerminalGrid {
    fn default() -> (r: Self)
        ensures
            r.inv(),
            r@ == GridView::fresh(80, 24, 10000),
    {
        Self::new()
    }
}

/// The grid is the canonical sink for the parser: every parsed operation
/// lands on the corresponding grid primitive.
impl crate::terminal::parser::TerminalOutput for TerminalGrid {
    open spec fn inv(&self) -> bool {
        TerminalGrid::inv(self)
    }

    open spec fn op_put_char(v: GridView, c: char) -> GridView {
        v.spec_put_char(c)
    }

    open spec fn op_backspace(v: GridView) -> GridView {
        v.with_cursor(
            v.cursor_row,
            if v.cursor_col == 0 {
                0
            } else {
                (v.cursor_col - 1) as nat
            },
        )
    }

    open spec fn op_tab(v: GridView) -> GridView {
        v.with_cursor(v.cursor_row, spec_next_tab_stop(v.cursor_col, v.cols))
    }

    open spec fn op_linefeed_in_region(v: GridView, top: usize, bottom: usize) -> GridView {
        v.spec_linefeed_in_region(top as nat, bottom as nat)
    }

    open spec fn op_carriage_return(v: GridView) -> GridView {
        v.with_cursor(v.cursor_row, 0)
    }

    open spec fn op_move_cursor(v: GridView, row: usize, col: usize) -> GridView {
        v.spec_move_cursor(row, col)
    }

    open spec fn op_clear_screen(v: GridView) -> GridView {
        v.spec_clear_screen()
    }

    open spec fn sink_cursor_row(v: GridView) -> usize {
        v.cursor_row as usize
    }

    open spec fn sink_cursor_col(v: GridView) -> usize {
        v.cursor_col as usize
    }

    open spec fn op_scroll_up_in_region(v: GridView, n: usize, top: usize, bottom: usize) -> GridView {
        v.spec_region_up(n as nat, top as nat, bottom as nat)
    }

    open spec fn op_scroll_down_in_region(v: GridView, n: usize, top: usize, bottom: usize) -> GridView {
        v.spec_region_down(n as nat, top as nat, bottom as nat)
    }

    open spec fn op_erase_in_display(v: GridView, mode: u16) -> GridView {
        v.spec_erase_in_display(mode)
    }

    open spec fn op_erase_in_line(v: GridView, mode: u16) -> GridView {
        v.spec_erase_in_line(mode)
    }

    fn put_char(&mut self, c: char) {
        TerminalGrid::put_char(self, c);
    }

    fn backspace(&mut self) {
        TerminalGrid::backspace(self);
    }

    fn tab(&mut self) {
        TerminalGrid::tab(self);
    }

    fn linefeed_in_region(&mut self, top: usize, bottom: usize) {
        TerminalGrid::linefeed_in_region(self, top, bottom);
    }

    fn carriage_return(&mut self) {
        TerminalGrid::carriage_return(self);
    }

    fn move_cursor(&mut self, row: usize, col: usize) {
        TerminalGrid::move_cursor(self, row, col);
    }

    fn clear_screen(&mut self) {
        TerminalGrid::clear_screen(self);
    }

    fn cursor_position(&self) -> (usize, usize) {
        let c = TerminalGrid::cursor(self);
        (c.row, c.col)
    }

    fn scroll_up_in_region(&mut self, n: usize, top: usize, bottom: usize) {
        TerminalGrid::scroll_up_in_region(self, n, top, bottom);
    }

    fn scroll_down_in_region(&mut self, n: usize, top: usize, bottom: usize) {
        TerminalGrid::scroll_down_in_region(self, n, top, bottom);
    }

    fn erase_in_display(&mut self, mode: u16) {
        TerminalGrid::erase_in_display(self, mode);
    }

    fn erase_in_line(&mut self, mode: u16) {
        TerminalGrid::erase_in_line(self, mode);
    }
}

/// Cursor position after a relative move by `delta` in a dimension of size
/// `bound`: saturates at 0 going backward, clamps to `bound - 1` going
/// forward.
pub open spec fn rel_move(cur: nat, delta: int, bound: nat) -> nat {
    if delta < 0 {
        if cur + delta <= 0 {
            0
        } else {
            (cur + delta) as nat
        }
    } else {
        let cap = if bound == 0 {
            0
        } else {
            (bound - 1) as nat
        };
        if cur + delta < cap {
            (cur + delta) as nat
        } else {
            cap
        }
    }
}

} // verus!
