//! ANSI escape sequence parser.
//!
//! Decodes a raw byte stream (UTF-8 text interleaved with C0 controls, CSI,
//! OSC, ESC and DCS sequences) into cursor, color and attribute state, and
//! into calls against an output sink such as the grid.

use vstd::prelude::*;

verus! {

/// Represents a color (either as an index into a palette or as an RGB value).
#[derive(Debug, Clone, Copy, PartialEq, Eq, Structural)]
pub enum Color {
    /// Default terminal color (foreground or background)
    Default,
    /// Indexed color (0-255, following XTerm 256-color palette)
    Indexed(u8),
    /// 24-bit RGB color
    Rgb(u8, u8, u8),
}

impl Default for Color {
    fn default() -> (r: Self)
        ensures
            r == Color::Default,
    {
        Color::Default
    }
}

/// Text attributes/style for a character cell.
#[derive(Debug, Clone, Copy, PartialEq, Eq, Structural)]
pub struct TextAttributes {
    /// Bold text
    pub bold: bool,
    /// Dim/faint text
    pub dim: bool,
    /// Italic text
    pub italic: bool,
    /// Underlined text
    pub underline: bool,
    /// Blinking text
    pub blink: bool,
    /// Reverse video (swap foreground/background)
    pub reverse: bool,
    /// Hidden/invisible text
    pub hidden: bool,
    /// Strikethrough text
    pub strikethrough: bool,
}

/// The attribute set with every flag cleared.
pub open spec fn spec_default_attributes() -> TextAttributes {
    TextAttributes {
        bold: false,
        dim: false,
        italic: false,
        underline: false,
        blink: false,
        reverse: false,
        hidden: false,
        strikethrough: false,
    }
}

impl Default for TextAttributes {
    fn default() -> (r: Self)
        ensures
            r == spec_default_attributes(),
    {
        TextAttributes {
            bold: false,
            dim: false,
            italic: false,
            underline: false,
            blink: false,
            reverse: false,
            hidden: false,
            strikethrough: false,
        }
    }
}

impl TextAttributes {
    /// Reset all attributes to default.
    pub fn reset(&mut self)
        ensures
            *final(self) == spec_default_attributes(),
    {
        *self = Self::default();
    }
}

/// Cursor position in the terminal grid.
#[derive(Debug, Clone, Copy, PartialEq, Eq, Structural)]
pub struct CursorPosition {
    /// 0-indexed row
    pub row: usize,
    /// 0-indexed column
    pub col: usize,
}

impl Default for CursorPosition {
    fn default() -> (r: Self)
        ensures
            r == (CursorPosition { row: 0, col: 0 }),
    {
        CursorPosition { row: 0, col: 0 }
    }
}

/// Represents a parsed terminal output cell.
#[derive(Debug, Clone, Copy, PartialEq, Eq, Structural)]
pub struct TerminalCell {
    /// Character content
    pub char: char,
    /// Foreground color
    pub fg_color: Color,
    /// Background color
    pub bg_color: Color,
    /// Text attributes
    pub attributes: TextAttributes,
}

impl Default for TerminalCell {
    fn default() -> (r: Self)
        ensures
            r == (TerminalCell {
                char: ' ',
                fg_color: Color::Default,
                bg_color: Color::Default,
                attributes: spec_default_attributes(),
            }),
    {
        TerminalCell {
            char: ' ',
            fg_color: Color::Default,
            bg_color: Color::Default,
            attributes: TextAttributes::default(),
        }
    }
}

/// State tracked by the terminal parser.
#[derive(Debug, Clone, Copy, PartialEq, Eq, Structural)]
pub struct ParserState {
    /// Current cursor position
    pub cursor: CursorPosition,
    /// Current text attributes
    pub attributes: TextAttributes,
    /// Current foreground color
    pub fg_color: Color,
    /// Current background color
    pub bg_color: Color,
    /// Whether cursor is visible
    pub cursor_visible: bool,
    /// Saved cursor position (for save/restore)
    pub saved_cursor: CursorPosition,
    /// Saved attributes (for save/restore)
    pub saved_attributes: TextAttributes,
    /// Scroll region top boundary (0-indexed, inclusive)
    pub scroll_region_top: usize,
    /// Scroll region bottom boundary (0-indexed, inclusive)
    pub scroll_region_bottom: usize,
    /// Saved scroll region top (for save/restore with origin mode)
    pub saved_scroll_region_top: usize,
    /// Saved scroll region bottom (for save/restore with origin mode)
    pub saved_scroll_region_bottom: usize,
    /// Origin mode - when true, cursor positioning is relative to scroll region
    pub origin_mode: bool,
}

/// The parser state a fresh parser starts from: cursor at the origin,
/// default pen, full-screen scroll region for a 24-line terminal.
pub open spec fn spec_default_parser_state() -> ParserState {
    ParserState {
        cursor: CursorPosition { row: 0, col: 0 },
        attributes: spec_default_attributes(),
        fg_color: Color::Default,
        bg_color: Color::Default,
        cursor_visible: true,
        saved_cursor: CursorPosition { row: 0, col: 0 },
        saved_attributes: spec_default_attributes(),
        scroll_region_top: 0,
        scroll_region_bottom: 23,
        saved_scroll_region_top: 0,
        saved_scroll_region_bottom: 23,
        origin_mode: false,
    }
}

impl Default for ParserState {
    fn default() -> (r: Self)
        ensures
            r == spec_default_parser_state(),
    {
        ParserState {
            cursor: CursorPosition::default(),
            attributes: TextAttributes::default(),
            fg_color: Color::Default,
            bg_color: Color::Default,
            cursor_visible: true,
            saved_cursor: CursorPosition::default(),
            saved_attributes: TextAttributes::default(),
            scroll_region_top: 0,
            scroll_region_bottom: 23,  // Default 24-line terminal
            saved_scroll_region_top: 0,
            saved_scroll_region_bottom: 23,
            origin_mode: false,
        }
    }
}

impl ParserState {
    /// Initialize scroll region with terminal size
    pub fn set_terminal_size(&mut self, rows: usize)
        ensures
            *final(self) == (ParserState {
                scroll_region_bottom: if rows == 0 {
                    0
                } else {
                    (rows - 1) as usize
                },
                saved_scroll_region_bottom: if rows == 0 {
                    0
                } else {
                    (rows - 1) as usize
                },
                ..*old(self)
            }),
    {
        self.scroll_region_bottom = if rows == 0 {
            0
        } else {
            rows - 1
        };
        self.saved_scroll_region_bottom = self.scroll_region_bottom;
    }

    /// Check if a custom scroll region is active: one that differs from the
    /// full screen of a `rows`-line terminal.
    pub fn has_scroll_region(&self, rows: usize) -> (r: bool)
        ensures
            r == (self.scroll_region_top != 0 || self.scroll_region_bottom != (
            if rows == 0 {
                0
            } else {
                rows - 1
            })),
    {
        let full_bottom = if rows == 0 {
            0
        } else {
            rows - 1
        };
        self.scroll_region_top != 0 || self.scroll_region_bottom != full_bottom
    }

    /// Check if cursor is within the scroll region
    pub fn cursor_in_scroll_region(&self, rows: usize) -> (r: bool)
        ensures
            r == ({
                let effective_bottom = if self.scroll_region_bottom < rows {
                    self.scroll_region_bottom as int
                } else if rows == 0 {
                    0
                } else {
                    rows - 1
                };
                self.scroll_region_top <= self.cursor.row <= effective_bottom
            }),
    {
        let effective_bottom = if self.scroll_region_bottom < rows {
            self.scroll_region_bottom
        } else if rows == 0 {
            0
        } else {
            rows - 1
        };
        self.cursor.row >= self.scroll_region_top && self.cursor.row <= effective_bottom
    }
}

/// Callback trait for handling parsed terminal output.
/// Implement this to receive characters and control sequences from the parser.
///
/// Each implementor brings an abstract state (its `View`), an invariant
/// `inv` that every operation preserves, and one transition spec function
/// per operation saying exactly what the operation does to that state. The
/// parser's own contracts are stated over these transitions, so what the
/// parser hands to its sink is pinned down for every implementor.
pub trait TerminalOutput: View {
    /// The sink's own well-formedness condition.
    spec fn inv(&self) -> bool;

    /// What [`Self::put_char`] does to the sink state.
    spec fn op_put_char(v: Self::V, c: char) -> Self::V;

    /// What [`Self::backspace`] does to the sink state.
    spec fn op_backspace(v: Self::V) -> Self::V;

    /// What [`Self::tab`] does to the sink state.
    spec fn op_tab(v: Self::V) -> Self::V;

    /// What [`Self::linefeed_in_region`] does to the sink state.
    spec fn op_linefeed_in_region(v: Self::V, top: usize, bottom: usize) -> Self::V;

    /// What [`Self::carriage_return`] does to the sink state.
    spec fn op_carriage_return(v: Self::V) -> Self::V;

    /// What [`Self::move_cursor`] does to the sink state.
    spec fn op_move_cursor(v: Self::V, row: usize, col: usize) -> Self::V;

    /// What [`Self::clear_screen`] does to the sink state.
    spec fn op_clear_screen(v: Self::V) -> Self::V;

    /// The row [`Self::cursor_position`] reports.
    spec fn sink_cursor_row(v: Self::V) -> usize;

    /// The column [`Self::cursor_position`] reports.
    spec fn sink_cursor_col(v: Self::V) -> usize;

    /// What [`Self::scroll_up_in_region`] does to the sink state.
    spec fn op_scroll_up_in_region(v: Self::V, n: usize, top: usize, bottom: usize) -> Self::V;

    /// What [`Self::scroll_down_in_region`] does to the sink state.
    spec fn op_scroll_down_in_region(v: Self::V, n: usize, top: usize, bottom: usize) -> Self::V;

    /// What [`Self::erase_in_display`] does to the sink state.
    spec fn op_erase_in_display(v: Self::V, mode: u16) -> Self::V;

    /// What [`Self::erase_in_line`] does to the sink state.
    spec fn op_erase_in_line(v: Self::V, mode: u16) -> Self::V;

    /// Put a character at the current cursor position with current attributes.
    fn put_char(&mut self, c: char)
        requires
            old(self).inv(),
        ensures
            final(self).inv(),
            final(self)@ == Self::op_put_char(old(self)@, c),
    ;

    /// Handle backspace.
    fn backspace(&mut self)
        requires
            old(self).inv(),
        ensures
            final(self).inv(),
            final(self)@ == Self::op_backspace(old(self)@),
    ;

    /// Handle tab.
    fn tab(&mut self)
        requires
            old(self).inv(),
        ensures
            final(self).inv(),
            final(self)@ == Self::op_tab(old(self)@),
    ;

    /// Handle line feed within scroll region.
    fn linefeed_in_region(&mut self, top: usize, bottom: usize)
        requires
            old(self).inv(),
        ensures
            final(self).inv(),
            final(self)@ == Self::op_linefeed_in_region(old(self)@, top, bottom),
    ;

    /// Handle carriage return.
    fn carriage_return(&mut self)
        requires
            old(self).inv(),
        ensures
            final(self).inv(),
            final(self)@ == Self::op_carriage_return(old(self)@),
    ;

    /// Move cursor to position.
    fn move_cursor(&mut self, row: usize, col: usize)
        requires
            old(self).inv(),
        ensures
            final(self).inv(),
            final(self)@ == Self::op_move_cursor(old(self)@, row, col),
    ;

    /// Clear screen.
    fn clear_screen(&mut self)
        requires
            old(self).inv(),
        ensures
            final(self).inv(),
            final(self)@ == Self::op_clear_screen(old(self)@),
    ;

    /// Get current cursor position.
    fn cursor_position(&self) -> (r: (usize, usize))
        requires
            self.inv(),
        ensures
            r.0 == Self::sink_cursor_row(self@),
            r.1 == Self::sink_cursor_col(self@),
    ;

    /// Scroll the content within a region up by n lines.
    /// Lines above the region are unaffected. Lines at the bottom of the region are cleared.
    fn scroll_up_in_region(&mut self, n: usize, top: usize, bottom: usize)
        requires
            old(self).inv(),
        ensures
            final(self).inv(),
            final(self)@ == Self::op_scroll_up_in_region(old(self)@, n, top, bottom),
    ;

    /// Scroll the content within a region down by n lines.
    /// Lines below the region are unaffected. Lines at the top of the region are cleared.
    fn scroll_down_in_region(&mut self, n: usize, top: usize, bottom: usize)
        requires
            old(self).inv(),
        ensures
            final(self).inv(),
            final(self)@ == Self::op_scroll_down_in_region(old(self)@, n, top, bottom),
    ;

    /// Erase in display with mode.
    fn erase_in_display(&mut self, mode: u16)
        requires
            old(self).inv(),
        ensures
            final(self).inv(),
            final(self)@ == Self::op_erase_in_display(old(self)@, mode),
    ;

    /// Erase in line with mode.
    fn erase_in_line(&mut self, mode: u16)
        requires
            old(self).inv(),
        ensures
            final(self).inv(),
            final(self)@ == Self::op_erase_in_line(old(self)@, mode),
    ;
}

/// A sink that discards everything: used when only the parser's own state is
/// wanted. Its abstract state is the unit value, and every operation keeps
/// it.
pub struct NullSink;

impl View for NullSink {
    type V = ();

    open spec fn view(&self) -> () {
        ()
    }
}

impl TerminalOutput for NullSink {
    open spec fn inv(&self) -> bool {
        true
    }

    open spec fn op_put_char(v: (), c: char) -> () {
        v
    }

    open spec fn op_backspace(v: ()) -> () {
        v
    }

    open spec fn op_tab(v: ()) -> () {
        v
    }

    open spec fn op_linefeed_in_region(v: (), top: usize, bottom: usize) -> () {
        v
    }

    open spec fn op_carriage_return(v: ()) -> () {
        v
    }

    open spec fn op_move_cursor(v: (), row: usize, col: usize) -> () {
        v
    }

    open spec fn op_clear_screen(v: ()) -> () {
        v
    }

    open spec fn sink_cursor_row(v: ()) -> usize {
        0
    }

    open spec fn sink_cursor_col(v: ()) -> usize {
        0
    }

    open spec fn op_scroll_up_in_region(v: (), n: usize, top: usize, bottom: usize) -> () {
        v
    }

    open spec fn op_scroll_down_in_region(v: (), n: usize, top: usize, bottom: usize) -> () {
        v
    }

    open spec fn op_erase_in_display(v: (), mode: u16) -> () {
        v
    }

    open spec fn op_erase_in_line(v: (), mode: u16) -> () {
        v
    }

    fn put_char(&mut self, c: char) {
    }

    fn backspace(&mut self) {
    }

    fn tab(&mut self) {
    }

    fn linefeed_in_region(&mut self, top: usize, bottom: usize) {
    }

    fn carriage_return(&mut self) {
    }

    fn move_cursor(&mut self, row: usize, col: usize) {
    }

    fn clear_screen(&mut self) {
    }

    fn cursor_position(&self) -> (r: (usize, usize)) {
        (0, 0)
    }

    fn scroll_up_in_region(&mut self, n: usize, top: usize, bottom: usize) {
    }

    fn scroll_down_in_region(&mut self, n: usize, top: usize, bottom: usize) {
    }

    fn erase_in_display(&mut self, mode: u16) {
    }

    fn erase_in_line(&mut self, mode: u16) {
    }
}

/// Parameter `i`, or `d` where the sequence supplied fewer parameters./// Parameter `i`, or `d` where the sequence supplied fewer parameters.
pub open spec fn p_or(params: Seq<u16>, i: int, d: u16) -> u16 {
    if 0 <= i < params.len() {
        params[i]
    } else {
        d
    }
}

/// The count argument of a cursor-movement sequence: 1 when omitted.
pub open spec fn n1(params: Seq<u16>) -> u16 {
    p_or(params, 0, 1)
}

/// `a - b` saturating at 0.
pub open spec fn sat_sub(a: int, b: int) -> int {
    if a >= b {
        a - b
    } else {
        0
    }
}

/// The last row index the cursor may move down to: the scroll-region bottom
/// under origin mode, the last screen row otherwise.
pub open spec fn max_row_bound(state: ParserState, rows: nat) -> int {
    if state.origin_mode {
        state.scroll_region_bottom as int
    } else if rows == 0 {
        0
    } else {
        rows - 1
    }
}

/// The first row index the cursor may move up to: the scroll-region top
/// under origin mode, row 0 otherwise.
pub open spec fn min_row_bound(state: ParserState) -> int {
    if state.origin_mode {
        state.scroll_region_top as int
    } else {
        0
    }
}

/// The scroll-region bottom clamped to the screen.
pub open spec fn effective_bottom(state: ParserState, rows: nat) -> int {
    if state.scroll_region_bottom < rows {
        state.scroll_region_bottom as int
    } else if rows == 0 {
        0
    } else {
        rows - 1
    }
}

/// The parser state after a line feed: at the bottom of the scroll region
/// the content scrolls and the cursor stays; elsewhere the cursor moves one
/// row down, stopping on the last screen row.
pub open spec fn spec_linefeed_state(state: ParserState, rows: nat) -> ParserState {
    if state.cursor.row == effective_bottom(state, rows) {
        state
    } else if rows > 0 && state.cursor.row < rows - 1 {
        ParserState {
            cursor: CursorPosition { row: (state.cursor.row + 1) as usize, ..state.cursor },
            ..state
        }
    } else {
        state
    }
}

/// The parser state after one C0 control byte (BS, HT, LF/VT/FF or CR);
/// other bytes leave the state alone.
pub open spec fn spec_execute(state: ParserState, b: u8, rows: nat, cols: nat) -> ParserState {
    if b == 0x08 {
        // BS
        if state.cursor.col > 0 {
            ParserState {
                cursor: CursorPosition { col: (state.cursor.col - 1) as usize, ..state.cursor },
                ..state
            }
        } else {
            state
        }
    } else if b == 0x09 {
        // HT: next multiple-of-8 tab stop, clamped to the last column
        ParserState {
            cursor: CursorPosition {
                col: crate::terminal::grid::spec_next_tab_stop(
                    state.cursor.col as nat,
                    cols,
                ) as usize,
                ..state.cursor
            },
            ..state
        }
    } else if 0x0A <= b <= 0x0C {
        // LF, VT, FF
        spec_linefeed_state(state, rows)
    } else if b == 0x0D {
        // CR
        ParserState { cursor: CursorPosition { col: 0, ..state.cursor }, ..state }
    } else {
        state
    }
}

/// How many parameters the leading SGR group consumes: the extended-color
/// introducers 38 and 48 take their arguments with them, everything else
/// stands alone. A malformed extended sequence consumes only its lead.
pub open spec fn sgr_consumed(params: Seq<u16>) -> int {
    if params.len() >= 3 && (params[0] == 38 || params[0] == 48) && params[1] == 5 {
        3
    } else if params.len() >= 5 && (params[0] == 38 || params[0] == 48) && params[1] == 2 {
        5
    } else {
        1
    }
}

/// The pen after one attribute-setting SGR parameter (0 through 29).
pub open spec fn sgr_attrs_stepped(state: ParserState, p: u16) -> ParserState {
    if p == 0 {
        ParserState {
            attributes: spec_default_attributes(),
            fg_color: Color::Default,
            bg_color: Color::Default,
            ..state
        }
    } else if p == 1 {
        ParserState { attributes: TextAttributes { bold: true, ..state.attributes }, ..state }
    } else if p == 2 {
        ParserState { attributes: TextAttributes { dim: true, ..state.attributes }, ..state }
    } else if p == 3 {
        ParserState { attributes: TextAttributes { italic: true, ..state.attributes }, ..state }
    } else if p == 4 {
        ParserState { attributes: TextAttributes { underline: true, ..state.attributes }, ..state }
    } else if p == 5 {
        ParserState { attributes: TextAttributes { blink: true, ..state.attributes }, ..state }
    } else if p == 7 {
        ParserState { attributes: TextAttributes { reverse: true, ..state.attributes }, ..state }
    } else if p == 8 {
        ParserState { attributes: TextAttributes { hidden: true, ..state.attributes }, ..state }
    } else if p == 9 {
        ParserState {
            attributes: TextAttributes { strikethrough: true, ..state.attributes },
            ..state
        }
    } else if p == 22 {
        ParserState {
            attributes: TextAttributes { bold: false, dim: false, ..state.attributes },
            ..state
        }
    } else if p == 23 {
        ParserState { attributes: TextAttributes { italic: false, ..state.attributes }, ..state }
    } else if p == 24 {
        ParserState {
            attributes: TextAttributes { underline: false, ..state.attributes },
            ..state
        }
    } else if p == 25 {
        ParserState { attributes: TextAttributes { blink: false, ..state.attributes }, ..state }
    } else if p == 27 {
        ParserState { attributes: TextAttributes { reverse: false, ..state.attributes }, ..state }
    } else if p == 28 {
        ParserState { attributes: TextAttributes { hidden: false, ..state.attributes }, ..state }
    } else if p == 29 {
        ParserState {
            attributes: TextAttributes { strikethrough: false, ..state.attributes },
            ..state
        }
    } else {
        state
    }
}

/// The pen after one color-setting SGR parameter group (30 and above),
/// including the extended-color forms of 38 and 48.
pub open spec fn sgr_colors_stepped(state: ParserState, params: Seq<u16>) -> ParserState {
    let p = params[0];
    if 30 <= p <= 37 {
        ParserState { fg_color: Color::Indexed((p - 30) as u8), ..state }
    } else if p == 38 {
        if params.len() >= 3 && params[1] == 5 {
            ParserState { fg_color: Color::Indexed(params[2] as u8), ..state }
        } else if params.len() >= 5 && params[1] == 2 {
            ParserState {
                fg_color: Color::Rgb(params[2] as u8, params[3] as u8, params[4] as u8),
                ..state
            }
        } else {
            state
        }
    } else if p == 39 {
        ParserState { fg_color: Color::Default, ..state }
    } else if 40 <= p <= 47 {
        ParserState { bg_color: Color::Indexed((p - 40) as u8), ..state }
    } else if p == 48 {
        if params.len() >= 3 && params[1] == 5 {
            ParserState { bg_color: Color::Indexed(params[2] as u8), ..state }
        } else if params.len() >= 5 && params[1] == 2 {
            ParserState {
                bg_color: Color::Rgb(params[2] as u8, params[3] as u8, params[4] as u8),
                ..state
            }
        } else {
            state
        }
    } else if p == 49 {
        ParserState { bg_color: Color::Default, ..state }
    } else if 90 <= p <= 97 {
        ParserState { fg_color: Color::Indexed((p - 90 + 8) as u8), ..state }
    } else if 100 <= p <= 107 {
        ParserState { bg_color: Color::Indexed((p - 100 + 8) as u8), ..state }
    } else {
        state
    }
}

/// The pen after the leading SGR parameter group.
pub open spec fn sgr_stepped(state: ParserState, params: Seq<u16>) -> ParserState {
    if params[0] <= 29 {
        sgr_attrs_stepped(state, params[0])
    } else {
        sgr_colors_stepped(state, params)
    }
}

/// An SGR parameter list applied to the pen, one group at a time, walking
/// left to right.
pub open spec fn spec_sgr_apply(state: ParserState, params: Seq<u16>) -> ParserState
    decreases params.len(),
{
    if params.len() == 0 {
        state
    } else {
        spec_sgr_apply(sgr_stepped(state, params), params.skip(sgr_consumed(params)))
    }
}

/// The parser state after a complete CSI sequence with final byte `action`
/// and the flattened numeric parameters `params`, on a `rows` × `cols`
/// screen. Unknown final bytes change nothing.
pub open spec fn spec_csi(
    state: ParserState,
    action: u8,
    params: Seq<u16>,
    rows: nat,
    cols: nat,
) -> ParserState {
    let n = n1(params) as int;
    let row = state.cursor.row as int;
    let col = state.cursor.col as int;
    if action == 0x41 {
        // 'A' CUU - Cursor Up
        let t = sat_sub(row, n);
        let r2 = if t >= min_row_bound(state) {
            t
        } else {
            min_row_bound(state)
        };
        ParserState { cursor: CursorPosition { row: r2 as usize, ..state.cursor }, ..state }
    } else if action == 0x42 {
        // 'B' CUD - Cursor Down
        let cap = max_row_bound(state, rows);
        let r2 = if row + n < cap {
            row + n
        } else {
            cap
        };
        ParserState { cursor: CursorPosition { row: r2 as usize, ..state.cursor }, ..state }
    } else if action == 0x43 {
        // 'C' CUF - Cursor Forward
        let cap = if cols == 0 {
            0
        } else {
            cols - 1
        };
        let c2 = if col + n < cap {
            col + n
        } else {
            cap as int
        };
        ParserState { cursor: CursorPosition { col: c2 as usize, ..state.cursor }, ..state }
    } else if action == 0x44 {
        // 'D' CUB - Cursor Back
        ParserState {
            cursor: CursorPosition { col: sat_sub(col, n) as usize, ..state.cursor },
            ..state
        }
    } else if action == 0x45 {
        // 'E' CNL - Cursor Next Line
        let cap = max_row_bound(state, rows);
        let r2 = if row + n < cap {
            row + n
        } else {
            cap
        };
        ParserState { cursor: CursorPosition { row: r2 as usize, col: 0 }, ..state }
    } else if action == 0x46 {
        // 'F' CPL - Cursor Previous Line
        let t = sat_sub(row, n);
        let r2 = if t >= min_row_bound(state) {
            t
        } else {
            min_row_bound(state)
        };
        ParserState { cursor: CursorPosition { row: r2 as usize, col: 0 }, ..state }
    } else if action == 0x47 {
        // 'G' CHA - Cursor Horizontal Absolute
        ParserState {
            cursor: CursorPosition { col: sat_sub(n, 1) as usize, ..state.cursor },
            ..state
        }
    } else if action == 0x48 || action == 0x66 {
        // 'H'/'f' CUP - Cursor Position
        let rp = p_or(params, 0, 1) as int;
        let cp = p_or(params, 1, 1) as int;
        let col_cap = if cols == 0 {
            0
        } else {
            cols - 1
        };
        let c2 = if sat_sub(cp, 1) < col_cap {
            sat_sub(cp, 1)
        } else {
            col_cap as int
        };
        if state.origin_mode {
            let t = state.scroll_region_top + sat_sub(rp, 1);
            let r2 = if t < state.scroll_region_bottom {
                t
            } else {
                state.scroll_region_bottom as int
            };
            ParserState { cursor: CursorPosition { row: r2 as usize, col: c2 as usize }, ..state }
        } else {
            let row_cap = if rows == 0 {
                0
            } else {
                rows - 1
            };
            let r2 = if sat_sub(rp, 1) < row_cap {
                sat_sub(rp, 1)
            } else {
                row_cap as int
            };
            ParserState { cursor: CursorPosition { row: r2 as usize, col: c2 as usize }, ..state }
        }
    } else if action == 0x4A {
        // 'J' ED - Erase in Display; modes 2 and 3 home the cursor
        let mode = p_or(params, 0, 0);
        if mode == 2 || mode == 3 {
            ParserState { cursor: CursorPosition { row: 0, col: 0 }, ..state }
        } else {
            state
        }
    } else if action == 0x72 {
        // 'r' DECSTBM - Set scroll region; invalid requests are dropped
        let top_p = p_or(params, 0, 1) as int;
        let bottom_p = if params.len() >= 2 {
            params[1] as int
        } else {
            rows as int
        };
        let top_idx = sat_sub(top_p, 1);
        let row_cap = if rows == 0 {
            0
        } else {
            rows - 1
        };
        let bottom_idx = if sat_sub(bottom_p, 1) < row_cap {
            sat_sub(bottom_p, 1)
        } else {
            row_cap as int
        };
        if top_idx < bottom_idx {
            ParserState {
                scroll_region_top: top_idx as usize,
                scroll_region_bottom: bottom_idx as usize,
                cursor: if state.origin_mode {
                    CursorPosition { row: top_idx as usize, col: 0 }
                } else {
                    CursorPosition { row: 0, col: 0 }
                },
                ..state
            }
        } else {
            state
        }
    } else if action == 0x6D {
        // 'm' SGR
        spec_sgr_apply(state, params)
    } else if action == 0x73 {
        // 's' SCP - Save cursor position
        ParserState {
            saved_cursor: state.cursor,
            saved_attributes: state.attributes,
            saved_scroll_region_top: state.scroll_region_top,
            saved_scroll_region_bottom: state.scroll_region_bottom,
            ..state
        }
    } else if action == 0x75 {
        // 'u' RCP - Restore cursor position
        ParserState {
            cursor: state.saved_cursor,
            attributes: state.saved_attributes,
            scroll_region_top: state.saved_scroll_region_top,
            scroll_region_bottom: state.saved_scroll_region_bottom,
            ..state
        }
    } else {
        // 'K', 'L', 'M', 'S', 'T' touch only the sink; anything else is
        // ignored.
        state
    }
}

/// The parser state after a non-CSI escape sequence `ESC <b>`.
pub open spec fn spec_esc(state: ParserState, b: u8, rows: nat, cols: nat) -> ParserState {
    if b == 0x63 {
        // 'c' RIS - full reset
        ParserState {
            cursor: CursorPosition { row: 0, col: 0 },
            attributes: spec_default_attributes(),
            fg_color: Color::Default,
            bg_color: Color::Default,
            scroll_region_top: 0,
            scroll_region_bottom: if rows == 0 {
                0
            } else {
                (rows - 1) as usize
            },
            origin_mode: false,
            ..state
        }
    } else if b == 0x4D {
        // 'M' RI - reverse index
        if state.cursor.row == state.scroll_region_top {
            state
        } else if state.cursor.row > 0 {
            ParserState {
                cursor: CursorPosition { row: (state.cursor.row - 1) as usize, ..state.cursor },
                ..state
            }
        } else {
            state
        }
    } else if b == 0x44 {
        // 'D' IND - index, same policy as line feed
        spec_linefeed_state(state, rows)
    } else if b == 0x45 {
        // 'E' NEL - next line
        spec_linefeed_state(
            ParserState { cursor: CursorPosition { col: 0, ..state.cursor }, ..state },
            rows,
        )
    } else if b == 0x37 {
        // '7' DECSC - save cursor
        ParserState {
            saved_cursor: state.cursor,
            saved_attributes: state.attributes,
            saved_scroll_region_top: state.scroll_region_top,
            saved_scroll_region_bottom: state.scroll_region_bottom,
            ..state
        }
    } else if b == 0x38 {
        // '8' DECRC - restore cursor
        ParserState {
            cursor: state.saved_cursor,
            attributes: state.saved_attributes,
            scroll_region_top: state.saved_scroll_region_top,
            scroll_region_bottom: state.saved_scroll_region_bottom,
            ..state
        }
    } else {
        state
    }
}

/// The sink after a line feed: the parser always drives it through one
/// `linefeed_in_region` call for the active region, and the sink applies the
/// scroll-at-bottom policy itself — so a line feed scrolls exactly once.
pub open spec fn spec_linefeed_sink<O: TerminalOutput>(
    v: O::V,
    state: ParserState,
    rows: nat,
) -> O::V {
    O::op_linefeed_in_region(
        v,
        state.scroll_region_top,
        effective_bottom(state, rows) as usize,
    )
}

/// The sink after a reverse index: scrolled down one line when the cursor
/// sits on the region's top row, untouched otherwise.
pub open spec fn spec_reverse_index_sink<O: TerminalOutput>(
    v: O::V,
    state: ParserState,
    rows: nat,
) -> O::V {
    if state.cursor.row == state.scroll_region_top {
        O::op_scroll_down_in_region(
            v,
            1,
            state.scroll_region_top,
            effective_bottom(state, rows) as usize,
        )
    } else {
        v
    }
}

/// The sink after one C0 control byte.
pub open spec fn spec_execute_sink<O: TerminalOutput>(
    v: O::V,
    state: ParserState,
    b: u8,
    rows: nat,
) -> O::V {
    if b == 0x08 {
        O::op_backspace(v)
    } else if b == 0x09 {
        O::op_tab(v)
    } else if 0x0A <= b <= 0x0C {
        spec_linefeed_sink::<O>(v, state, rows)
    } else if b == 0x0D {
        O::op_carriage_return(v)
    } else {
        v
    }
}

/// The sink after a complete CSI sequence: the parser resolves parameters,
/// origin mode and clamping itself and drives the sink with absolute
/// coordinates; the cursor-motion actions move relative to the position the
/// sink reports.
pub open spec fn spec_csi_sink<O: TerminalOutput>(
    v: O::V,
    state: ParserState,
    action: u8,
    params: Seq<u16>,
    rows: nat,
    cols: nat,
) -> O::V {
    let n = n1(params) as int;
    let orow = O::sink_cursor_row(v) as int;
    let ocol = O::sink_cursor_col(v) as int;
    let min_row = min_row_bound(state);
    let max_row = max_row_bound(state, rows);
    let col_cap = if cols == 0 {
        0
    } else {
        cols - 1
    };
    if action == 0x41 {
        // 'A' CUU
        let t = sat_sub(orow, n);
        O::op_move_cursor(
            v,
            (if t >= min_row {
                t
            } else {
                min_row
            }) as usize,
            ocol as usize,
        )
    } else if action == 0x42 {
        // 'B' CUD
        O::op_move_cursor(
            v,
            (if orow + n < max_row {
                orow + n
            } else {
                max_row
            }) as usize,
            ocol as usize,
        )
    } else if action == 0x43 {
        // 'C' CUF
        O::op_move_cursor(
            v,
            orow as usize,
            (if ocol + n < col_cap {
                ocol + n
            } else {
                col_cap
            }) as usize,
        )
    } else if action == 0x44 {
        // 'D' CUB
        O::op_move_cursor(v, orow as usize, sat_sub(ocol, n) as usize)
    } else if action == 0x45 {
        // 'E' CNL
        O::op_move_cursor(
            v,
            (if orow + n < max_row {
                orow + n
            } else {
                max_row
            }) as usize,
            0,
        )
    } else if action == 0x46 {
        // 'F' CPL
        let t = sat_sub(orow, n);
        O::op_move_cursor(
            v,
            (if t >= min_row {
                t
            } else {
                min_row
            }) as usize,
            0,
        )
    } else if action == 0x47 {
        // 'G' CHA
        O::op_move_cursor(v, orow as usize, sat_sub(n, 1) as usize)
    } else if action == 0x48 || action == 0x66 {
        // 'H'/'f' CUP: the new state's cursor is the resolved position
        let st2 = spec_csi(state, action, params, rows, cols);
        O::op_move_cursor(v, st2.cursor.row, st2.cursor.col)
    } else if action == 0x4A {
        // 'J' ED
        let mode = p_or(params, 0, 0);
        let v2 = O::op_erase_in_display(v, mode);
        if mode == 2 || mode == 3 {
            O::op_move_cursor(v2, 0, 0)
        } else {
            v2
        }
    } else if action == 0x4B {
        // 'K' EL
        O::op_erase_in_line(v, p_or(params, 0, 0))
    } else if action == 0x4C {
        // 'L' IL: only with the cursor inside the region
        let top = state.cursor.row;
        let bottom = effective_bottom(state, rows);
        if state.scroll_region_top <= top <= bottom {
            O::op_scroll_down_in_region(v, n as usize, top, bottom as usize)
        } else {
            v
        }
    } else if action == 0x4D {
        // 'M' DL
        let top = state.cursor.row;
        let bottom = effective_bottom(state, rows);
        if state.scroll_region_top <= top <= bottom {
            O::op_scroll_up_in_region(v, n as usize, top, bottom as usize)
        } else {
            v
        }
    } else if action == 0x72 {
        // 'r' DECSTBM: a valid request homes the cursor (to the region top
        // under origin mode); an invalid one is dropped
        let top_p = p_or(params, 0, 1) as int;
        let bottom_p = if params.len() >= 2 {
            params[1] as int
        } else {
            rows as int
        };
        let top_idx = sat_sub(top_p, 1);
        let row_cap = if rows == 0 {
            0
        } else {
            rows - 1
        };
        let bottom_idx = if sat_sub(bottom_p, 1) < row_cap {
            sat_sub(bottom_p, 1)
        } else {
            row_cap as int
        };
        if top_idx < bottom_idx {
            O::op_move_cursor(
                v,
                (if state.origin_mode {
                    top_idx
                } else {
                    0
                }) as usize,
                0,
            )
        } else {
            v
        }
    } else if action == 0x53 {
        // 'S' SU
        O::op_scroll_up_in_region(
            v,
            n as usize,
            state.scroll_region_top,
            effective_bottom(state, rows) as usize,
        )
    } else if action == 0x54 {
        // 'T' SD
        O::op_scroll_down_in_region(
            v,
            n as usize,
            state.scroll_region_top,
            effective_bottom(state, rows) as usize,
        )
    } else if action == 0x75 {
        // 'u' RCP
        O::op_move_cursor(v, state.saved_cursor.row, state.saved_cursor.col)
    } else {
        // 'm' and 's' touch only the parser's own state
        v
    }
}

/// The sink after a non-CSI escape sequence.
pub open spec fn spec_esc_sink<O: TerminalOutput>(
    v: O::V,
    state: ParserState,
    b: u8,
    rows: nat,
) -> O::V {
    if b == 0x63 {
        // 'c' RIS
        O::op_move_cursor(O::op_clear_screen(v), 0, 0)
    } else if b == 0x4D {
        // 'M' RI
        spec_reverse_index_sink::<O>(v, state, rows)
    } else if b == 0x44 {
        // 'D' IND
        spec_linefeed_sink::<O>(v, state, rows)
    } else if b == 0x45 {
        // 'E' NEL
        spec_linefeed_sink::<O>(O::op_carriage_return(v), state, rows)
    } else if b == 0x38 {
        // '8' DECRC
        O::op_move_cursor(v, state.saved_cursor.row, state.saved_cursor.col)
    } else {
        v
    }
}

/// The character completed by the final UTF-8 continuation byte, if the
/// accumulated code point is a Unicode scalar value.
pub open spec fn utf8_completed_char(acc: u32, b: u8) -> Option<char> {
    let code = (acc << 6) | ((b & 0x3F) as u32);
    if code <= 0x10FFFF && !(0xD800 <= code <= 0xDFFF) {
        Some(code as char)
    } else {
        None
    }
}

/// The sink after one byte: printable characters (ASCII directly, multi-byte
/// characters on their final continuation byte) are put; C0 controls act in
/// any mode; completed CSI and ESC sequences drive their actions; everything
/// else leaves the sink alone.
pub open spec fn spec_advance_sink<O: TerminalOutput>(c: ParserCore, v: O::V, b: u8) -> O::V {
    if c.utf8_rem > 0 {
        if 0x80 <= b <= 0xBF {
            if c.utf8_rem == 1 {
                match utf8_completed_char(c.utf8_acc, b) {
                    Some(ch) => O::op_put_char(v, ch),
                    None => v,
                }
            } else {
                v
            }
        } else {
            spec_advance_base_sink::<O>(ParserCore { utf8_rem: 0, ..c }, v, b)
        }
    } else {
        spec_advance_base_sink::<O>(c, v, b)
    }
}

/// The sink transition outside of a pending UTF-8 character.
pub open spec fn spec_advance_base_sink<O: TerminalOutput>(c: ParserCore, v: O::V, b: u8) -> O::V {
    if b == 0x1B {
        v
    } else if 0x08 <= b <= 0x0D {
        spec_execute_sink::<O>(v, c.state, b, c.rows)
    } else if b == 0x07 {
        v
    } else if c.mode == ParseMode::Ground {
        if 0x20 <= b <= 0x7E {
            O::op_put_char(v, b as char)
        } else {
            v
        }
    } else if c.mode == ParseMode::Escape {
        if b == 0x5B || b == 0x5D || b == 0x50 {
            v
        } else {
            spec_esc_sink::<O>(v, c.state, b, c.rows)
        }
    } else if c.mode == ParseMode::Csi {
        if 0x40 <= b <= 0x7E {
            let ps = if c.have_digit || c.any_sep {
                if c.params.len() < max_params() {
                    c.params.push(c.current_param)
                } else {
                    c.params
                }
            } else {
                c.params
            };
            spec_csi_sink::<O>(v, c.state, b, ps, c.rows, c.cols)
        } else {
            v
        }
    } else {
        v
    }
}

/// The sink after a whole byte sequence, fed alongside the parser state.
pub open spec fn spec_parse_sink<O: TerminalOutput>(c: ParserCore, v: O::V, bytes: Seq<u8>) -> O::V
    decreases bytes.len(),
{
    if bytes.len() == 0 {
        v
    } else {
        spec_parse_sink::<O>(
            spec_advance(c, bytes[0]),
            spec_advance_sink::<O>(c, v, bytes[0]),
            bytes.skip(1),
        )
    }
}

/// Recognition state of the escape-sequence automaton.
#[derive(Debug, Clone, Copy, PartialEq, Eq, Structural)]
pub enum ParseMode {
    /// Plain text; printable characters go to the sink.
    Ground,
    /// After an ESC byte.
    Escape,
    /// Inside `ESC [`, accumulating parameters.
    Csi,
    /// Inside `ESC ]`, waiting for BEL or `ESC \`; the payload is discarded.
    Osc,
    /// Inside `ESC P`, waiting for `ESC \`; the payload is discarded.
    Dcs,
}

/// Everything the parser tracks between bytes: the semantic state, the
/// automaton mode, the parameter accumulator, the UTF-8 decoder state, and
/// the screen dimensions used for clamping.
#[verifier::ext_equal]
pub struct ParserCore {
    /// Cursor, pen, scroll region, origin mode.
    pub state: ParserState,
    /// Automaton mode.
    pub mode: ParseMode,
    /// Completed numeric parameters of the CSI sequence in progress.
    pub params: Seq<u16>,
    /// The parameter currently being accumulated.
    pub current_param: u16,
    /// Whether the current parameter has seen a digit.
    pub have_digit: bool,
    /// Whether a parameter separator appeared in this sequence.
    pub any_sep: bool,
    /// Continuation bytes still expected for the current UTF-8 character.
    pub utf8_rem: u8,
    /// Code point bits accumulated so far.
    pub utf8_acc: u32,
    /// Screen height used for clamping.
    pub rows: nat,
    /// Screen width used for clamping.
    pub cols: nat,
}

/// At most this many parameters are kept per CSI sequence; further ones are
/// dropped, as a defence against hostile input.
pub open spec fn max_params() -> int {
    32
}

/// One byte fed to the automaton while a UTF-8 character is incomplete or
/// from scratch; the heart of the parser. Printable characters and the OSC
/// and DCS payloads touch no parser state, so the transition covers them
/// silently.
pub open spec fn spec_advance(c: ParserCore, b: u8) -> ParserCore {
    if c.utf8_rem > 0 {
        if 0x80 <= b <= 0xBF {
            ParserCore {
                utf8_rem: (c.utf8_rem - 1) as u8,
                utf8_acc: (c.utf8_acc << 6) | ((b & 0x3F) as u32),
                ..c
            }
        } else {
            // Invalid continuation: drop the partial character and process
            // the byte on its own.
            spec_advance_base(ParserCore { utf8_rem: 0, ..c }, b)
        }
    } else {
        spec_advance_base(c, b)
    }
}

/// The automaton transition outside of a pending UTF-8 character.
pub open spec fn spec_advance_base(c: ParserCore, b: u8) -> ParserCore {
    if b == 0x1B {
        // ESC starts a fresh sequence from any mode.
        ParserCore {
            mode: ParseMode::Escape,
            params: Seq::empty(),
            current_param: 0,
            have_digit: false,
            any_sep: false,
            ..c
        }
    } else if 0x08 <= b <= 0x0D {
        // C0 controls act immediately, whatever the mode.
        ParserCore { state: spec_execute(c.state, b, c.rows, c.cols), ..c }
    } else if b == 0x07 {
        // BEL terminates an OSC.
        if c.mode == ParseMode::Osc {
            ParserCore { mode: ParseMode::Ground, ..c }
        } else {
            c
        }
    } else if c.mode == ParseMode::Ground {
        if 0xC0 <= b <= 0xDF {
            ParserCore { utf8_rem: 1, utf8_acc: (b & 0x1F) as u32, ..c }
        } else if 0xE0 <= b <= 0xEF {
            ParserCore { utf8_rem: 2, utf8_acc: (b & 0x0F) as u32, ..c }
        } else if 0xF0 <= b <= 0xF7 {
            ParserCore { utf8_rem: 3, utf8_acc: (b & 0x07) as u32, ..c }
        } else {
            // Printable bytes go to the sink; stray bytes are ignored.
            c
        }
    } else if c.mode == ParseMode::Escape {
        if b == 0x5B {
            // '['
            ParserCore { mode: ParseMode::Csi, ..c }
        } else if b == 0x5D {
            // ']'
            ParserCore { mode: ParseMode::Osc, ..c }
        } else if b == 0x50 {
            // 'P'
            ParserCore { mode: ParseMode::Dcs, ..c }
        } else {
            ParserCore {
                mode: ParseMode::Ground,
                state: spec_esc(c.state, b, c.rows, c.cols),
                ..c
            }
        }
    } else if c.mode == ParseMode::Csi {
        if 0x30 <= b <= 0x39 {
            // Digit: extend the current parameter, saturating.
            let v = c.current_param as int * 10 + (b - 0x30);
            ParserCore {
                current_param: if v > 65535 {
                    65535 as u16
                } else {
                    v as u16
                },
                have_digit: true,
                ..c
            }
        } else if b == 0x3B || b == 0x3A {
            // ';' or ':' — groups and sub-parameters are flattened alike.
            ParserCore {
                params: if c.params.len() < max_params() {
                    c.params.push(c.current_param)
                } else {
                    c.params
                },
                current_param: 0,
                have_digit: false,
                any_sep: true,
                ..c
            }
        } else if 0x40 <= b <= 0x7E {
            // Final byte: dispatch and return to ground.
            let ps = if c.have_digit || c.any_sep {
                if c.params.len() < max_params() {
                    c.params.push(c.current_param)
                } else {
                    c.params
                }
            } else {
                c.params
            };
            ParserCore {
                mode: ParseMode::Ground,
                state: spec_csi(c.state, b, ps, c.rows, c.cols),
                params: Seq::empty(),
                current_param: 0,
                have_digit: false,
                any_sep: false,
                ..c
            }
        } else {
            // '?' and other markers or intermediates are ignored.
            c
        }
    } else {
        // OSC and DCS payloads are discarded.
        c
    }
}

/// The parser state after a whole byte sequence.
pub open spec fn spec_parse(c: ParserCore, bytes: Seq<u8>) -> ParserCore
    decreases bytes.len(),
{
    if bytes.len() == 0 {
        c
    } else {
        spec_parse(spec_advance(c, bytes[0]), bytes.skip(1))
    }
}

/// Terminal parser that processes ANSI escape sequences.
///
/// The parser maintains the terminal state (cursor position, colors, text
/// attributes, scroll region) and drives an output sink.
pub struct TerminalParser {
    /// Current parser state
    pub state: ParserState,
    /// Automaton mode
    mode: ParseMode,
    /// Completed parameters of the CSI sequence in progress
    params: Vec<u16>,
    /// Parameter accumulator
    current_param: u16,
    /// Whether the current parameter has seen a digit
    have_digit: bool,
    /// Whether a separator appeared in this sequence
    any_sep: bool,
    /// Continuation bytes still expected
    utf8_rem: u8,
    /// Code point bits accumulated so far
    utf8_acc: u32,
    /// Processed output buffer (for rendered content)
    output_buffer: Vec<TerminalCell>,
    /// Number of columns in the terminal
    cols: usize,
    /// Number of rows in the terminal
    rows: usize,
}

impl View for TerminalParser {
    type V = ParserCore;

    closed spec fn view(&self) -> ParserCore {
        ParserCore {
            state: self.state,
            mode: self.mode,
            params: self.params@,
            current_param: self.current_param,
            have_digit: self.have_digit,
            any_sep: self.any_sep,
            utf8_rem: self.utf8_rem,
            utf8_acc: self.utf8_acc,
            rows: self.rows as nat,
            cols: self.cols as nat,
        }
    }
}

impl TerminalParser {
    /// The fresh parser core for a `cols` × `rows` screen.
    pub open spec fn spec_new(cols: nat, rows: nat) -> ParserCore {
        ParserCore {
            state: ParserState {
                scroll_region_bottom: if rows == 0 {
                    0
                } else {
                    (rows - 1) as usize
                },
                saved_scroll_region_bottom: if rows == 0 {
                    0
                } else {
                    (rows - 1) as usize
                },
                ..spec_default_parser_state()
            },
            mode: ParseMode::Ground,
            params: Seq::empty(),
            current_param: 0,
            have_digit: false,
            any_sep: false,
            utf8_rem: 0,
            utf8_acc: 0,
            rows,
            cols,
        }
    }

    /// Create a new terminal parser with default dimensions.
    pub fn new() -> (r: Self)
        ensures
            r.wf(),
            r@ == Self::spec_new(80, 24),
            r.buffer_view().len() == 80 * 24,
    {
        Self::with_size(80, 24)
    }

    /// Create a new terminal parser with specified dimensions.
    ///
    /// # Arguments
    /// * `cols` - Number of columns (width)
    /// * `rows` - Number of rows (height)
    pub fn with_size(cols: usize, rows: usize) -> (r: Self)
        requires
            cols * rows <= usize::MAX,
        ensures
            r.wf(),
            r@ == Self::spec_new(cols as nat, rows as nat),
            r.buffer_view().len() == cols * rows,
    {
        let mut state = ParserState::default();
        state.set_terminal_size(rows);
        let count = cols * rows;
        let mut output_buffer: Vec<TerminalCell> = Vec::new();
        let mut i: usize = 0;
        while i < count
            invariant
                i <= count,
                output_buffer@.len() == i,
            decreases count - i,
        {
            output_buffer.push(TerminalCell::default());
            i += 1;
        }
        let r = TerminalParser {
            state,
            mode: ParseMode::Ground,
            params: Vec::new(),
            current_param: 0,
            have_digit: false,
            any_sep: false,
            utf8_rem: 0,
            utf8_acc: 0,
            output_buffer,
            cols,
            rows,
        };
        proof {
            assert(r@ =~= Self::spec_new(cols as nat, rows as nat));
        }
        r
    }

    /// Get the current cursor position.
    pub fn cursor_position(&self) -> (r: CursorPosition)
        ensures
            r == self@.state.cursor,
    {
        self.state.cursor
    }

    /// Get the current text attributes.
    pub fn attributes(&self) -> (r: TextAttributes)
        ensures
            r == self@.state.attributes,
    {
        self.state.attributes
    }

    /// Get the current foreground color.
    pub fn foreground_color(&self) -> (r: Color)
        ensures
            r == self@.state.fg_color,
    {
        self.state.fg_color
    }

    /// Get the current background color.
    pub fn background_color(&self) -> (r: Color)
        ensures
            r == self@.state.bg_color,
    {
        self.state.bg_color
    }

    /// Get the output buffer.
    pub fn output(&self) -> (r: &[TerminalCell])
        ensures
            r@ == self.buffer_view(),
    {
        self.output_buffer.as_slice()
    }

    /// The cells of the internal output buffer.
    pub closed spec fn buffer_view(&self) -> Seq<TerminalCell> {
        self.output_buffer@
    }

    /// Clear the output buffer.
    pub fn clear_screen(&mut self)
        ensures
            final(self)@ == old(self)@,
            final(self).buffer_view().len() == old(self).buffer_view().len(),
            forall|i: int|
                0 <= i < final(self).buffer_view().len() ==> final(self).buffer_view()[i]
                    == (TerminalCell {
                    char: ' ',
                    fg_color: Color::Default,
                    bg_color: Color::Default,
                    attributes: spec_default_attributes(),
                }),
    {
        let n = self.output_buffer.len();
        let mut i: usize = 0;
        while i < n
            invariant
                i <= n,
                n == self.output_buffer@.len(),
                self@ == old(self)@,
                forall|t: int|
                    0 <= t < i ==> self.output_buffer@[t] == (TerminalCell {
                        char: ' ',
                        fg_color: Color::Default,
                        bg_color: Color::Default,
                        attributes: spec_default_attributes(),
                    }),
            decreases n - i,
        {
            self.output_buffer[i] = TerminalCell::default();
            i += 1;
        }
    }

    /// Resize the terminal.
    pub fn resize(&mut self, cols: usize, rows: usize)
        requires
            cols * rows <= usize::MAX,
        ensures
            final(self).wf() == old(self).wf(),
            final(self)@ == (ParserCore {
                state: ParserState {
                    scroll_region_bottom: if rows == 0 {
                        0
                    } else {
                        (rows - 1) as usize
                    },
                    saved_scroll_region_bottom: if rows == 0 {
                        0
                    } else {
                        (rows - 1) as usize
                    },
                    ..old(self)@.state
                },
                rows: rows as nat,
                cols: cols as nat,
                ..old(self)@
            }),
            final(self).buffer_view().len() == cols * rows,
    {
        self.cols = cols;
        self.rows = rows;
        self.state.set_terminal_size(rows);
        let count = cols * rows;
        let mut buf: Vec<TerminalCell> = Vec::new();
        let mut i: usize = 0;
        while i < count
            invariant
                i <= count,
                buf@.len() == i,
            decreases count - i,
        {
            buf.push(TerminalCell::default());
            i += 1;
        }
        self.output_buffer = buf;
        proof {
            assert(final(self)@ =~= (ParserCore {
                state: ParserState {
                    scroll_region_bottom: if rows == 0 {
                        0
                    } else {
                        (rows - 1) as usize
                    },
                    saved_scroll_region_bottom: if rows == 0 {
                        0
                    } else {
                        (rows - 1) as usize
                    },
                    ..old(self)@.state
                },
                rows: rows as nat,
                cols: cols as nat,
                ..old(self)@
            }));
        }
    }
}

impl TerminalParser {
    /// The first parameter, defaulting to 1 when the sequence gave none.
    fn param_n1(&self) -> (r: u16)
        ensures
            r == n1(self@.params),
    {
        if self.params.len() == 0 {
            1
        } else {
            self.params[0]
        }
    }

    /// Parameter `i`, or `d` when absent.
    fn param_or(&self, i: usize, d: u16) -> (r: u16)
        ensures
            r == p_or(self@.params, i as int, d),
    {
        if i < self.params.len() {
            self.params[i]
        } else {
            d
        }
    }

    /// The scroll-region bottom clamped to the screen.
    fn eff_bottom(&self) -> (r: usize)
        ensures
            r == effective_bottom(self@.state, self@.rows),
    {
        if self.state.scroll_region_bottom < self.rows {
            self.state.scroll_region_bottom
        } else if self.rows == 0 {
            0
        } else {
            self.rows - 1
        }
    }

    /// Line feed: scroll the region when the cursor sits on its bottom row,
    /// move down otherwise. The sink is notified either way.
    fn handle_linefeed<O: TerminalOutput>(&mut self, output: &mut O)
        requires
            old(output).inv(),
        ensures
            final(output).inv(),
            final(self)@ == (ParserCore {
                state: spec_linefeed_state(old(self)@.state, old(self)@.rows),
                ..old(self)@
            }),
            final(output)@ == spec_linefeed_sink::<O>(
                old(output)@,
                old(self)@.state,
                old(self)@.rows,
            ),
            final(self).buffer_view() == old(self).buffer_view(),
    {
        let top = self.state.scroll_region_top;
        let bottom = self.eff_bottom();
        if self.state.cursor.row == bottom {
            // At the region bottom the cursor stays; the sink scrolls below.
        } else if self.rows > 0 && self.state.cursor.row < self.rows - 1 {
            // Just move cursor down
            self.state.cursor.row = self.state.cursor.row + 1;
        }
        // The sink applies the same policy itself: scroll at the region
        // bottom, cursor down otherwise. Driving it through one call keeps a
        // single scroll per line feed.
        output.linefeed_in_region(top, bottom);
        proof {
            assert(final(self)@ =~= (ParserCore {
                state: spec_linefeed_state(old(self)@.state, old(self)@.rows),
                ..old(self)@
            }));
        }
    }

    /// Reverse index (ESC M): scroll the region down at its top row, move up
    /// otherwise.
    fn handle_reverse_index<O: TerminalOutput>(&mut self, output: &mut O)
        requires
            old(output).inv(),
        ensures
            final(output).inv(),
            final(self)@ == (ParserCore {
                state: spec_esc(old(self)@.state, 0x4D, old(self)@.rows, old(self)@.cols),
                ..old(self)@
            }),
            final(output)@ == spec_reverse_index_sink::<O>(
                old(output)@,
                old(self)@.state,
                old(self)@.rows,
            ),
            final(self).buffer_view() == old(self).buffer_view(),
    {
        let top = self.state.scroll_region_top;
        let bottom = self.eff_bottom();
        if self.state.cursor.row == top {
            // Cursor at top of scroll region, scroll down
            output.scroll_down_in_region(1, top, bottom);
        } else if self.state.cursor.row > 0 {
            self.state.cursor.row = self.state.cursor.row - 1;
        }
        proof {
            assert(final(self)@ =~= (ParserCore {
                state: spec_esc(old(self)@.state, 0x4D, old(self)@.rows, old(self)@.cols),
                ..old(self)@
            }));
        }
    }

    /// A C0 control byte, acted on immediately in any mode.
    fn execute_control<O: TerminalOutput>(&mut self, byte: u8, output: &mut O)
        requires
            old(output).inv(),
            0x08 <= byte <= 0x0D,
        ensures
            final(output).inv(),
            final(self)@ == (ParserCore {
                state: spec_execute(old(self)@.state, byte, old(self)@.rows, old(self)@.cols),
                ..old(self)@
            }),
            final(output)@ == spec_execute_sink::<O>(
                old(output)@,
                old(self)@.state,
                byte,
                old(self)@.rows,
            ),
            final(self).buffer_view() == old(self).buffer_view(),
    {
        if byte == 0x08 {
            // BS - Backspace
            if self.state.cursor.col > 0 {
                self.state.cursor.col = self.state.cursor.col - 1;
            }
            output.backspace();
        } else if byte == 0x09 {
            // HT - Horizontal Tab
            if self.cols > 0 {
                let stop = (self.state.cursor.col / 8 + 1).checked_mul(8);
                self.state.cursor.col = match stop {
                    Some(v) => if v < self.cols {
                        v
                    } else {
                        self.cols - 1
                    },
                    None => self.cols - 1,
                };
            }
            output.tab();
        } else if byte == 0x0D {
            // CR - Carriage Return
            self.state.cursor.col = 0;
            output.carriage_return();
        } else {
            // LF, VT, FF - Line Feed
            self.handle_linefeed(output);
        }
        proof {
            assert(final(self)@ =~= (ParserCore {
                state: spec_execute(old(self)@.state, byte, old(self)@.rows, old(self)@.cols),
                ..old(self)@
            }));
        }
    }

    /// One attribute-setting SGR parameter applied to the pen.
    fn sgr_step_attrs(&mut self, p: u16)
        requires
            p <= 29,
        ensures
            final(self)@ == (ParserCore {
                state: sgr_attrs_stepped(old(self)@.state, p),
                ..old(self)@
            }),
            final(self).buffer_view() == old(self).buffer_view(),
    {
        let a = self.state.attributes;
        if p == 0 {
            self.state.attributes = TextAttributes::default();
            self.state.fg_color = Color::Default;
            self.state.bg_color = Color::Default;
        } else {
            let na = if p == 1 {
                TextAttributes { bold: true, ..a }
            } else if p == 2 {
                TextAttributes { dim: true, ..a }
            } else if p == 3 {
                TextAttributes { italic: true, ..a }
            } else if p == 4 {
                TextAttributes { underline: true, ..a }
            } else if p == 5 {
                TextAttributes { blink: true, ..a }
            } else if p == 7 {
                TextAttributes { reverse: true, ..a }
            } else if p == 8 {
                TextAttributes { hidden: true, ..a }
            } else if p == 9 {
                TextAttributes { strikethrough: true, ..a }
            } else if p == 22 {
                TextAttributes { bold: false, dim: false, ..a }
            } else if p == 23 {
                TextAttributes { italic: false, ..a }
            } else if p == 24 {
                TextAttributes { underline: false, ..a }
            } else if p == 25 {
                TextAttributes { blink: false, ..a }
            } else if p == 27 {
                TextAttributes { reverse: false, ..a }
            } else if p == 28 {
                TextAttributes { hidden: false, ..a }
            } else if p == 29 {
                TextAttributes { strikethrough: false, ..a }
            } else {
                a
            };
            self.state.attributes = na;
        }
    }

    /// One color-setting SGR parameter group starting at index `i`: updates
    /// the pen and returns how many parameters were consumed.
    #[verifier::rlimit(100)]
    fn sgr_step_colors(&mut self, i: usize) -> (step: usize)
        requires
            i < old(self)@.params.len(),
            old(self)@.params[i as int] >= 30,
        ensures
            final(self)@ == (ParserCore {
                state: sgr_colors_stepped(old(self)@.state, old(self)@.params.skip(i as int)),
                ..old(self)@
            }),
            step == sgr_consumed(old(self)@.params.skip(i as int)),
            1 <= step <= 5,
            final(self).buffer_view() == old(self).buffer_view(),
    {
        let len = self.params.len();
        let p = self.params[i];
        let ghost sp = self@.params.skip(i as int);
        proof {
            assert(sp.len() == len - i);
            assert(sp[0] == p);
            assert(sp.len() >= 3 ==> sp[1] == self@.params[i + 1] && sp[2] == self@.params[i + 2]);
            assert(sp.len() >= 5 ==> sp[3] == self@.params[i + 3] && sp[4] == self@.params[i + 4]);
        }
        let mut step: usize = 1;
        if 30 <= p && p <= 37 {
            self.state.fg_color = Color::Indexed((p - 30) as u8);
        } else if p == 38 || p == 48 {
            let mut ext: Option<Color> = None;
            if len >= 3 && i <= len - 3 && self.params[i + 1] == 5 {
                ext = Some(Color::Indexed(#[verifier::truncate] (self.params[i + 2] as u8)));
                step = 3;
            } else if len >= 5 && i <= len - 5 && self.params[i + 1] == 2 {
                ext = Some(
                    Color::Rgb(
                        #[verifier::truncate] (self.params[i + 2] as u8),
                        #[verifier::truncate] (self.params[i + 3] as u8),
                        #[verifier::truncate] (self.params[i + 4] as u8),
                    ),
                );
                step = 5;
            }
            match ext {
                Some(color) => {
                    if p == 38 {
                        self.state.fg_color = color;
                    } else {
                        self.state.bg_color = color;
                    }
                },
                None => {},
            }
        } else if p == 39 {
            self.state.fg_color = Color::Default;
        } else if 40 <= p && p <= 47 {
            self.state.bg_color = Color::Indexed((p - 40) as u8);
        } else if p == 49 {
            self.state.bg_color = Color::Default;
        } else if 90 <= p && p <= 97 {
            self.state.fg_color = Color::Indexed((p - 90 + 8) as u8);
        } else if 100 <= p && p <= 107 {
            self.state.bg_color = Color::Indexed((p - 100 + 8) as u8);
        }
        step
    }

    /// One SGR parameter group, starting at index `i`: updates the pen and
    /// returns how many parameters were consumed.
    fn sgr_step(&mut self, i: usize) -> (step: usize)
        requires
            i < old(self)@.params.len(),
        ensures
            final(self)@ == (ParserCore {
                state: sgr_stepped(old(self)@.state, old(self)@.params.skip(i as int)),
                ..old(self)@
            }),
            step == sgr_consumed(old(self)@.params.skip(i as int)),
            1 <= step <= 5,
            final(self).buffer_view() == old(self).buffer_view(),
    {
        let p = self.params[i];
        proof {
            assert(self@.params.skip(i as int)[0] == p);
        }
        if p <= 29 {
            self.sgr_step_attrs(p);
            1
        } else {
            self.sgr_step_colors(i)
        }
    }

    /// Applies an SGR parameter list to the pen, mirroring
    /// [`spec_sgr_apply`] group by group.
    fn apply_sgr(&mut self)
        requires
            old(self)@.params.len() <= max_params() + 1,
        ensures
            final(self)@ == (ParserCore {
                state: spec_sgr_apply(old(self)@.state, old(self)@.params),
                ..old(self)@
            }),
            final(self).buffer_view() == old(self).buffer_view(),
    {
        let ghost orig = self@.state;
        let ghost ps = self.params@;
        let len = self.params.len();
        let mut i: usize = 0;
        proof {
            assert(ps.skip(0) =~= ps);
        }
        while i < len
            invariant
                i <= len + 4,
                len <= max_params() + 1,
                len == self.params@.len(),
                self.params@ == ps,
                self@ == (ParserCore { state: self@.state, ..old(self)@ }),
                self.buffer_view() == old(self).buffer_view(),
                i <= len ==> spec_sgr_apply(orig, ps) == spec_sgr_apply(
                    self@.state,
                    ps.skip(i as int),
                ),
                i > len ==> spec_sgr_apply(orig, ps) == self@.state,
            decreases len - i,
        {
            let ghost pre = self@.state;
            let ghost gi = i as int;
            let step = self.sgr_step(i);
            i += step;
            proof {
                assert(ps.skip(gi).skip(step as int) =~= ps.skip(gi + step));
                if i > len {
                    assert(ps.skip(gi + step) =~= Seq::<u16>::empty());
                }
            }
        }
        proof {
            if i <= len {
                assert(ps.skip(len as int) =~= Seq::<u16>::empty());
            }
            assert(final(self)@ =~= (ParserCore {
                state: spec_sgr_apply(old(self)@.state, old(self)@.params),
                ..old(self)@
            }));
        }
    }
}

impl TerminalParser {
    /// The tokenizer never holds more than the parameter cap.
    pub closed spec fn wf(&self) -> bool {
        self.params@.len() <= max_params()
    }

    /// A complete CSI sequence: updates the parser state according to the
    /// final byte and drives the sink with already-resolved absolute
    /// coordinates.
    fn csi_apply<O: TerminalOutput>(&mut self, action: u8, output: &mut O)
        requires
            old(output).inv(),
            old(self)@.params.len() <= max_params() + 1,
        ensures
            final(output).inv(),
            final(self)@ == (ParserCore {
                state: spec_csi(
                    old(self)@.state,
                    action,
                    old(self)@.params,
                    old(self)@.rows,
                    old(self)@.cols,
                ),
                ..old(self)@
            }),
            final(output)@ == spec_csi_sink::<O>(
                old(output)@,
                old(self)@.state,
                action,
                old(self)@.params,
                old(self)@.rows,
                old(self)@.cols,
            ),
            final(self).buffer_view() == old(self).buffer_view(),
    {
        if action == 0x6D {
            // 'm' SGR - Select Graphic Rendition
            self.apply_sgr();
        } else if (0x41 <= action && action <= 0x48) || action == 0x66 {
            self.csi_cursor_motion(action, output);
        } else {
            self.csi_other(action, output);
        }
    }

    /// The cursor-motion CSI actions: CUU, CUD, CUF, CUB, CNL, CPL, CHA and
    /// CUP.
    #[verifier::rlimit(100)]
    fn csi_cursor_motion<O: TerminalOutput>(&mut self, action: u8, output: &mut O)
        requires
            old(output).inv(),
            0x41 <= action <= 0x48 || action == 0x66,
        ensures
            final(output).inv(),
            final(self)@ == (ParserCore {
                state: spec_csi(
                    old(self)@.state,
                    action,
                    old(self)@.params,
                    old(self)@.rows,
                    old(self)@.cols,
                ),
                ..old(self)@
            }),
            final(output)@ == spec_csi_sink::<O>(
                old(output)@,
                old(self)@.state,
                action,
                old(self)@.params,
                old(self)@.rows,
                old(self)@.cols,
            ),
            final(self).buffer_view() == old(self).buffer_view(),
    {
        let st = self.state;
        let n = self.param_n1() as usize;
        let min_row = if st.origin_mode {
            st.scroll_region_top
        } else {
            0
        };
        let max_row = self.max_row_cap();
        let col_cap = if self.cols == 0 {
            0
        } else {
            self.cols - 1
        };
        if action == 0x41 {
            // 'A' CUU - Cursor Up
            let t = st.cursor.row.saturating_sub(n);
            let r2 = if t >= min_row {
                t
            } else {
                min_row
            };
            self.state = ParserState { cursor: CursorPosition { row: r2, ..st.cursor }, ..st };
            let (orow, ocol) = output.cursor_position();
            let t2 = orow.saturating_sub(n);
            output.move_cursor(
                if t2 >= min_row {
                    t2
                } else {
                    min_row
                },
                ocol,
            );
        } else if action == 0x42 {
            // 'B' CUD - Cursor Down
            let t = st.cursor.row.saturating_add(n);
            let r2 = if t < max_row {
                t
            } else {
                max_row
            };
            self.state = ParserState { cursor: CursorPosition { row: r2, ..st.cursor }, ..st };
            let (orow, ocol) = output.cursor_position();
            let t2 = orow.saturating_add(n);
            output.move_cursor(
                if t2 < max_row {
                    t2
                } else {
                    max_row
                },
                ocol,
            );
        } else if action == 0x43 {
            // 'C' CUF - Cursor Forward (Right)
            let t = st.cursor.col.saturating_add(n);
            let c2 = if t < col_cap {
                t
            } else {
                col_cap
            };
            self.state = ParserState { cursor: CursorPosition { col: c2, ..st.cursor }, ..st };
            let (orow, ocol) = output.cursor_position();
            let t2 = ocol.saturating_add(n);
            output.move_cursor(
                orow,
                if t2 < col_cap {
                    t2
                } else {
                    col_cap
                },
            );
        } else if action == 0x44 {
            // 'D' CUB - Cursor Back (Left)
            let c2 = st.cursor.col.saturating_sub(n);
            self.state = ParserState { cursor: CursorPosition { col: c2, ..st.cursor }, ..st };
            let (orow, ocol) = output.cursor_position();
            output.move_cursor(orow, ocol.saturating_sub(n));
        } else if action == 0x45 {
            // 'E' CNL - Cursor Next Line
            let t = st.cursor.row.saturating_add(n);
            let r2 = if t < max_row {
                t
            } else {
                max_row
            };
            self.state = ParserState { cursor: CursorPosition { row: r2, col: 0 }, ..st };
            let (orow, _) = output.cursor_position();
            let t2 = orow.saturating_add(n);
            output.move_cursor(
                if t2 < max_row {
                    t2
                } else {
                    max_row
                },
                0,
            );
        } else if action == 0x46 {
            // 'F' CPL - Cursor Previous Line
            let t = st.cursor.row.saturating_sub(n);
            let r2 = if t >= min_row {
                t
            } else {
                min_row
            };
            self.state = ParserState { cursor: CursorPosition { row: r2, col: 0 }, ..st };
            let (orow, _) = output.cursor_position();
            let t2 = orow.saturating_sub(n);
            output.move_cursor(
                if t2 >= min_row {
                    t2
                } else {
                    min_row
                },
                0,
            );
        } else if action == 0x47 {
            // 'G' CHA - Cursor Horizontal Absolute (1-indexed)
            let c2 = n.saturating_sub(1);
            self.state = ParserState { cursor: CursorPosition { col: c2, ..st.cursor }, ..st };
            let (orow, _) = output.cursor_position();
            output.move_cursor(orow, c2);
        } else {
            // 'H'/'f' CUP - Cursor Position (row; col, 1-indexed)
            let rp = self.param_or(0, 1) as usize;
            let cp = self.param_or(1, 1) as usize;
            let c_raw = cp.saturating_sub(1);
            let final_col = if c_raw < col_cap {
                c_raw
            } else {
                col_cap
            };
            let final_row = if st.origin_mode {
                let t = st.scroll_region_top.saturating_add(rp.saturating_sub(1));
                if t < st.scroll_region_bottom {
                    t
                } else {
                    st.scroll_region_bottom
                }
            } else {
                let row_cap = if self.rows == 0 {
                    0
                } else {
                    self.rows - 1
                };
                let r_raw = rp.saturating_sub(1);
                if r_raw < row_cap {
                    r_raw
                } else {
                    row_cap
                }
            };
            self.state = ParserState {
                cursor: CursorPosition { row: final_row, col: final_col },
                ..st
            };
            output.move_cursor(final_row, final_col);
        }
    }

    /// The remaining CSI actions: erase, insert and delete lines, scroll
    /// region control, scrolling, and cursor save/restore.
    #[verifier::rlimit(100)]
    fn csi_other<O: TerminalOutput>(&mut self, action: u8, output: &mut O)
        requires
            old(output).inv(),
            !(0x41 <= action <= 0x48),
            action != 0x66,
            action != 0x6D,
        ensures
            final(output).inv(),
            final(self)@ == (ParserCore {
                state: spec_csi(
                    old(self)@.state,
                    action,
                    old(self)@.params,
                    old(self)@.rows,
                    old(self)@.cols,
                ),
                ..old(self)@
            }),
            final(output)@ == spec_csi_sink::<O>(
                old(output)@,
                old(self)@.state,
                action,
                old(self)@.params,
                old(self)@.rows,
                old(self)@.cols,
            ),
            final(self).buffer_view() == old(self).buffer_view(),
    {
        let st = self.state;
        let n = self.param_n1() as usize;
        if action == 0x4A {
            // 'J' ED - Erase in Display; modes 2 and 3 home the cursor
            let mode = self.param_or(0, 0);
            output.erase_in_display(mode);
            if mode == 2 || mode == 3 {
                self.state = ParserState { cursor: CursorPosition { row: 0, col: 0 }, ..st };
                output.move_cursor(0, 0);
            }
        } else if action == 0x4B {
            // 'K' EL - Erase in Line
            let mode = self.param_or(0, 0);
            output.erase_in_line(mode);
        } else if action == 0x4C {
            // 'L' IL - Insert Lines: scroll down from the cursor row to the
            // bottom of the region, only with the cursor inside the region
            let top = st.cursor.row;
            let bottom = self.eff_bottom();
            if top >= st.scroll_region_top && top <= bottom {
                output.scroll_down_in_region(n, top, bottom);
            }
        } else if action == 0x4D {
            // 'M' DL - Delete Lines
            let top = st.cursor.row;
            let bottom = self.eff_bottom();
            if top >= st.scroll_region_top && top <= bottom {
                output.scroll_up_in_region(n, top, bottom);
            }
        } else if action == 0x72 {
            // 'r' DECSTBM - Set Top and Bottom Margins (scroll region);
            // a request with top at or below bottom is dropped
            let top_p = self.param_or(0, 1) as usize;
            let bottom_p = if self.params.len() >= 2 {
                let b16 = self.params[1];
                b16 as usize
            } else {
                self.rows
            };
            let top_idx = top_p.saturating_sub(1);
            let row_cap = if self.rows == 0 {
                0
            } else {
                self.rows - 1
            };
            let b_raw = bottom_p.saturating_sub(1);
            let bottom_idx = if b_raw < row_cap {
                b_raw
            } else {
                row_cap
            };
            if top_idx < bottom_idx {
                // Home the cursor (to the region top under origin mode)
                let home = if st.origin_mode {
                    CursorPosition { row: top_idx, col: 0 }
                } else {
                    CursorPosition { row: 0, col: 0 }
                };
                self.state = ParserState {
                    scroll_region_top: top_idx,
                    scroll_region_bottom: bottom_idx,
                    cursor: home,
                    ..st
                };
                output.move_cursor(home.row, home.col);
            }
        } else if action == 0x53 {
            // 'S' SU - Scroll Up within the region, cursor unaffected
            let bottom = self.eff_bottom();
            output.scroll_up_in_region(n, st.scroll_region_top, bottom);
        } else if action == 0x54 {
            // 'T' SD - Scroll Down within the region
            let bottom = self.eff_bottom();
            output.scroll_down_in_region(n, st.scroll_region_top, bottom);
        } else if action == 0x73 {
            // 's' SCP - Save Cursor Position (with attributes and region)
            self.state = ParserState {
                saved_cursor: st.cursor,
                saved_attributes: st.attributes,
                saved_scroll_region_top: st.scroll_region_top,
                saved_scroll_region_bottom: st.scroll_region_bottom,
                ..st
            };
        } else if action == 0x75 {
            // 'u' RCP - Restore Cursor Position
            self.state = ParserState {
                cursor: st.saved_cursor,
                attributes: st.saved_attributes,
                scroll_region_top: st.saved_scroll_region_top,
                scroll_region_bottom: st.saved_scroll_region_bottom,
                ..st
            };
            output.move_cursor(self.state.cursor.row, self.state.cursor.col);
        }
    }

    /// The lowest row the cursor may not move below: the scroll-region
    /// bottom under origin mode, the last screen row otherwise.
    fn max_row_cap(&self) -> (r: usize)
        ensures
            r == max_row_bound(self@.state, self@.rows),
    {
        if self.state.origin_mode {
            self.state.scroll_region_bottom
        } else if self.rows == 0 {
            0
        } else {
            self.rows - 1
        }
    }

    /// A non-CSI escape sequence `ESC <byte>`.
    #[verifier::rlimit(100)]
    fn esc_apply<O: TerminalOutput>(&mut self, byte: u8, output: &mut O)
        requires
            old(output).inv(),
        ensures
            final(output).inv(),
            final(self)@ == (ParserCore {
                state: spec_esc(old(self)@.state, byte, old(self)@.rows, old(self)@.cols),
                ..old(self)@
            }),
            final(output)@ == spec_esc_sink::<O>(
                old(output)@,
                old(self)@.state,
                byte,
                old(self)@.rows,
            ),
            final(self).buffer_view() == old(self).buffer_view(),
    {
        let st = self.state;
        if byte == 0x63 {
            // 'c' RIS - Reset to Initial State
            self.state = ParserState {
                cursor: CursorPosition { row: 0, col: 0 },
                attributes: TextAttributes::default(),
                fg_color: Color::Default,
                bg_color: Color::Default,
                scroll_region_top: 0,
                scroll_region_bottom: if self.rows == 0 {
                    0
                } else {
                    self.rows - 1
                },
                origin_mode: false,
                ..st
            };
            output.clear_screen();
            output.move_cursor(0, 0);
        } else if byte == 0x4D {
            // 'M' RI - Reverse Index
            self.handle_reverse_index(output);
        } else if byte == 0x44 {
            // 'D' IND - Index, same policy as line feed
            self.handle_linefeed(output);
        } else if byte == 0x45 {
            // 'E' NEL - Next Line
            self.state = ParserState { cursor: CursorPosition { col: 0, ..st.cursor }, ..st };
            output.carriage_return();
            self.handle_linefeed(output);
        } else if byte == 0x37 {
            // '7' DECSC - Save Cursor (including scroll region)
            self.state = ParserState {
                saved_cursor: st.cursor,
                saved_attributes: st.attributes,
                saved_scroll_region_top: st.scroll_region_top,
                saved_scroll_region_bottom: st.scroll_region_bottom,
                ..st
            };
        } else if byte == 0x38 {
            // '8' DECRC - Restore Cursor (including scroll region)
            self.state = ParserState {
                cursor: st.saved_cursor,
                attributes: st.saved_attributes,
                scroll_region_top: st.saved_scroll_region_top,
                scroll_region_bottom: st.saved_scroll_region_bottom,
                ..st
            };
            output.move_cursor(self.state.cursor.row, self.state.cursor.col);
        }
    }

    /// Feed one byte to the parser, updating its state and driving the sink.
    pub fn advance<O: TerminalOutput>(&mut self, byte: u8, output: &mut O)
        requires
            old(self).wf(),
            old(output).inv(),
        ensures
            final(self).wf(),
            final(output).inv(),
            final(self)@ == spec_advance(old(self)@, byte),
            final(output)@ == spec_advance_sink::<O>(old(self)@, old(output)@, byte),
            final(self).buffer_view() == old(self).buffer_view(),
    {
        if self.utf8_rem > 0 {
            if 0x80 <= byte && byte <= 0xBF {
                self.utf8_acc = (self.utf8_acc << 6u32) | ((byte & 0x3F) as u32);
                self.utf8_rem = self.utf8_rem - 1;
                if self.utf8_rem == 0 {
                    let decoded = crate::util::char_from_u32(self.utf8_acc);
                    proof {
                        match decoded {
                            Some(ch) => {
                                vstd::utf8::char_u32_cast(ch, self.utf8_acc);
                            },
                            None => {},
                        }
                    }
                    match decoded {
                        Some(c) => output.put_char(c),
                        None => {},
                    }
                }
                return ;
            } else {
                // Invalid continuation: drop the partial character and
                // process the byte on its own.
                self.utf8_rem = 0;
            }
        }
        self.advance_base(byte, output);
    }

    /// The automaton transition outside of a pending UTF-8 character.
    fn advance_base<O: TerminalOutput>(&mut self, byte: u8, output: &mut O)
        requires
            old(self).wf(),
            old(output).inv(),
            old(self)@.utf8_rem == 0,
        ensures
            final(self).wf(),
            final(output).inv(),
            final(self)@ == spec_advance_base(old(self)@, byte),
            final(output)@ == spec_advance_base_sink::<O>(old(self)@, old(output)@, byte),
            final(self).buffer_view() == old(self).buffer_view(),
    {
        if byte == 0x1B {
            // ESC starts a fresh sequence from any mode
            self.mode = ParseMode::Escape;
            self.params.clear();
            self.current_param = 0;
            self.have_digit = false;
            self.any_sep = false;
            proof {
                assert(final(self)@ =~= spec_advance_base(old(self)@, byte));
            }
        } else if 0x08 <= byte && byte <= 0x0D {
            // C0 controls act immediately, whatever the mode
            self.execute_control(byte, output);
        } else if byte == 0x07 {
            // BEL terminates an OSC
            if self.mode == ParseMode::Osc {
                self.mode = ParseMode::Ground;
            }
        } else if self.mode == ParseMode::Ground {
            if 0xC0 <= byte && byte <= 0xDF {
                self.utf8_rem = 1;
                self.utf8_acc = (byte & 0x1F) as u32;
            } else if 0xE0 <= byte && byte <= 0xEF {
                self.utf8_rem = 2;
                self.utf8_acc = (byte & 0x0F) as u32;
            } else if 0xF0 <= byte && byte <= 0xF7 {
                self.utf8_rem = 3;
                self.utf8_acc = (byte & 0x07) as u32;
            } else if 0x20 <= byte && byte <= 0x7E {
                // Printable ASCII goes to the sink
                output.put_char(byte as char);
            }
        } else if self.mode == ParseMode::Escape {
            if byte == 0x5B {
                // '[' enters CSI
                self.mode = ParseMode::Csi;
            } else if byte == 0x5D {
                // ']' enters OSC
                self.mode = ParseMode::Osc;
            } else if byte == 0x50 {
                // 'P' enters DCS
                self.mode = ParseMode::Dcs;
            } else {
                self.esc_apply(byte, output);
                self.mode = ParseMode::Ground;
            }
        } else if self.mode == ParseMode::Csi {
            if 0x30 <= byte && byte <= 0x39 {
                // Digit: extend the current parameter, saturating
                let v = (self.current_param as u32) * 10 + ((byte - 0x30) as u32);
                self.current_param = if v > 65535 {
                    65535
                } else {
                    v as u16
                };
                self.have_digit = true;
            } else if byte == 0x3B || byte == 0x3A {
                // ';' or ':' - groups and sub-parameters are flattened alike
                if self.params.len() < 32 {
                    self.params.push(self.current_param);
                }
                self.current_param = 0;
                self.have_digit = false;
                self.any_sep = true;
            } else if 0x40 <= byte && byte <= 0x7E {
                // Final byte: dispatch and return to ground
                if self.have_digit || self.any_sep {
                    if self.params.len() < 32 {
                        self.params.push(self.current_param);
                    }
                }
                self.csi_apply(byte, output);
                self.mode = ParseMode::Ground;
                self.params.clear();
                self.current_param = 0;
                self.have_digit = false;
                self.any_sep = false;
                proof {
                    assert(final(self)@ =~= spec_advance_base(old(self)@, byte));
                }
            }
            // '?', other markers and intermediates are ignored
        }
        // OSC and DCS payloads are discarded
    }

    /// Parse a slice of bytes from the PTY, updating only the parser's own
    /// state.
    ///
    /// The bytes are interpreted as UTF-8 text with embedded escape
    /// sequences.
    pub fn parse_bytes(&mut self, bytes: &[u8])
        requires
            old(self).wf(),
        ensures
            final(self).wf(),
            final(self)@ == spec_parse(old(self)@, bytes@),
            final(self).buffer_view() == old(self).buffer_view(),
    {
        let mut sink = NullSink;
        self.parse_bytes_with_output(bytes, &mut sink);
    }

    /// Parse bytes and output to a TerminalOutput sink.
    ///
    /// This is the preferred method for connecting the parser to a grid or
    /// screen. The parser updates its internal state AND drives the sink.
    pub fn parse_bytes_with_output<O: TerminalOutput>(&mut self, bytes: &[u8], output: &mut O)
        requires
            old(self).wf(),
            old(output).inv(),
        ensures
            final(self).wf(),
            final(output).inv(),
            final(self)@ == spec_parse(old(self)@, bytes@),
            final(output)@ == spec_parse_sink::<O>(old(self)@, old(output)@, bytes@),
            final(self).buffer_view() == old(self).buffer_view(),
    {
        let mut i: usize = 0;
        proof {
            assert(bytes@.skip(0) =~= bytes@);
        }
        while i < bytes.len()
            invariant
                i <= bytes@.len(),
                self.wf(),
                output.inv(),
                spec_parse(old(self)@, bytes@) == spec_parse(self@, bytes@.skip(i as int)),
                spec_parse_sink::<O>(old(self)@, old(output)@, bytes@) == spec_parse_sink::<O>(
                    self@,
                    output@,
                    bytes@.skip(i as int),
                ),
                self.buffer_view() == old(self).buffer_view(),
            decreases bytes@.len() - i,
        {
            let ghost pre = self@;
            let ghost prev = output@;
            let b = bytes[i];
            self.advance(b, output);
            i += 1;
            proof {
                assert(bytes@.skip(i as int - 1).skip(1) =~= bytes@.skip(i as int));
                assert(spec_parse(pre, bytes@.skip(i as int - 1)) == spec_parse(
                    self@,
                    bytes@.skip(i as int),
                ));
                assert(spec_parse_sink::<O>(pre, prev, bytes@.skip(i as int - 1))
                    == spec_parse_sink::<O>(self@, output@, bytes@.skip(i as int)));
            }
        }
        proof {
            assert(bytes@.skip(bytes@.len() as int) =~= Seq::<u8>::empty());
        }
    }
}

impl Default for TerminalParser {
    fn default() -> (r: Self)
        ensures
            r.wf(),
            r@ == TerminalParser::spec_new(80, 24),
    {
        Self::new()
    }
}

/// SGR round trip: `CSI 1;31;4 m` followed by `CSI 0 m` leaves the pen at
/// its defaults, whatever it held before; and `CSI 38;5;N m` sets exactly
/// the indexed foreground `N`.
pub proof fn lemma_sgr_roundtrip(state: ParserState, n: u8)
    ensures
        ({
            let styled = spec_sgr_apply(state, seq![1u16, 31u16, 4u16]);
            let reset = spec_sgr_apply(styled, seq![0u16]);
            &&& styled.attributes.bold
            &&& styled.fg_color == Color::Indexed(1)
            &&& styled.attributes.underline
            &&& reset.attributes == spec_default_attributes()
            &&& reset.fg_color == Color::Default
            &&& reset.bg_color == Color::Default
        }),
        spec_sgr_apply(state, seq![38u16, 5u16, n as u16]).fg_color == Color::Indexed(n),
{
    let ps = seq![1u16, 31u16, 4u16];
    let s1 = sgr_stepped(state, ps);
    assert(sgr_consumed(ps) == 1);
    assert(spec_sgr_apply(state, ps) == spec_sgr_apply(s1, ps.skip(1)));
    assert(ps.skip(1) =~= seq![31u16, 4u16]);
    let s2 = sgr_stepped(s1, ps.skip(1));
    assert(sgr_consumed(ps.skip(1)) == 1);
    assert(spec_sgr_apply(s1, ps.skip(1)) == spec_sgr_apply(s2, ps.skip(1).skip(1)));
    assert(ps.skip(1).skip(1) =~= seq![4u16]);
    let s3 = sgr_stepped(s2, ps.skip(1).skip(1));
    assert(sgr_consumed(ps.skip(1).skip(1)) == 1);
    assert(spec_sgr_apply(s2, ps.skip(1).skip(1)) == spec_sgr_apply(
        s3,
        ps.skip(1).skip(1).skip(1),
    ));
    assert(ps.skip(1).skip(1).skip(1) =~= Seq::<u16>::empty());
    assert(spec_sgr_apply(s3, ps.skip(1).skip(1).skip(1)) == s3);
    assert(spec_sgr_apply(state, ps) == s3);
    let styled = spec_sgr_apply(state, ps);
    let zs = seq![0u16];
    assert(sgr_consumed(zs) == 1);
    assert(zs.skip(1) =~= Seq::<u16>::empty());
    assert(spec_sgr_apply(styled, zs) == spec_sgr_apply(sgr_stepped(styled, zs), zs.skip(1)));
    assert(spec_sgr_apply(styled, zs) == sgr_stepped(styled, zs));

    let xs = seq![38u16, 5u16, n as u16];
    assert(xs.skip(3) =~= Seq::<u16>::empty());
    assert(sgr_consumed(xs) == 3);
    assert(spec_sgr_apply(state, xs) == spec_sgr_apply(sgr_stepped(state, xs), xs.skip(3)));
    assert(spec_sgr_apply(state, xs) == sgr_stepped(state, xs));
    assert(sgr_stepped(state, xs).fg_color == Color::Indexed(xs[2] as u8));
    assert(xs[2] as u8 == n);
}

} // verus!
