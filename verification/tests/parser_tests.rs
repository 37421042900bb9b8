//! Tests for the escape-sequence parser: cursor movement, attributes,
//! colors, save/restore, scroll regions, and the parser-to-grid pipeline.

use warp_foss::terminal::grid::TerminalGrid;
use warp_foss::terminal::parser::Color;
use warp_foss::terminal::parser::CursorPosition;
use warp_foss::terminal::parser::ParserState;
use warp_foss::terminal::parser::TerminalParser;

#[test]
fn test_parser_creation() {
    let parser = TerminalParser::new();
    assert_eq!(parser.cursor_position().row, 0);
    assert_eq!(parser.cursor_position().col, 0);
}

#[test]
fn test_parser_with_size() {
    let parser = TerminalParser::with_size(120, 40);
    assert_eq!(parser.output().len(), 120 * 40);
}

#[test]
fn test_cursor_movement() {
    let mut parser = TerminalParser::new();

    // Test cursor position
    assert_eq!(parser.cursor_position(), CursorPosition { row: 0, col: 0 });

    // Move cursor down (CSI B)
    parser.parse_bytes(b"\x1B[5B");
    assert_eq!(parser.cursor_position().row, 5);

    // Move cursor right (CSI C)
    parser.parse_bytes(b"\x1B[10C");
    assert_eq!(parser.cursor_position().col, 10);

    // Move cursor to position (CSI H)
    parser.parse_bytes(b"\x1B[5;10H");
    assert_eq!(parser.cursor_position().row, 4); // 1-indexed to 0-indexed
    assert_eq!(parser.cursor_position().col, 9);
}

#[test]
fn test_text_attributes() {
    let mut parser = TerminalParser::new();

    // Enable bold (CSI 1 m)
    parser.parse_bytes(b"\x1B[1m");
    assert!(parser.attributes().bold);

    // Enable italic (CSI 3 m)
    parser.parse_bytes(b"\x1B[3m");
    assert!(parser.attributes().italic);

    // Reset all (CSI 0 m)
    parser.parse_bytes(b"\x1B[0m");
    assert!(!parser.attributes().bold);
    assert!(!parser.attributes().italic);
}

#[test]
fn test_colors() {
    let mut parser = TerminalParser::new();

    // Set foreground to red (CSI 31 m)
    parser.parse_bytes(b"\x1B[31m");
    assert_eq!(parser.foreground_color(), Color::Indexed(1));

    // Set foreground to default (CSI 39 m)
    parser.parse_bytes(b"\x1B[39m");
    assert_eq!(parser.foreground_color(), Color::Default);

    // Set 256-color foreground (CSI 38;5;<n> m)
    parser.parse_bytes(b"\x1B[38;5;200m");
    assert_eq!(parser.foreground_color(), Color::Indexed(200));

    // Set 24-bit RGB foreground (CSI 38;2;<r>;<g>;<b> m)
    parser.parse_bytes(b"\x1B[38;2;255;128;64m");
    assert_eq!(parser.foreground_color(), Color::Rgb(255, 128, 64));
}

#[test]
fn test_control_characters() {
    let mut parser = TerminalParser::new();

    // Start at position 5,5
    parser.state.cursor.row = 5;
    parser.state.cursor.col = 5;

    // Carriage return
    parser.parse_bytes(b"\r");
    assert_eq!(parser.cursor_position().col, 0);
    assert_eq!(parser.cursor_position().row, 5);

    // Reset and test backspace
    parser.state.cursor.col = 5;
    parser.parse_bytes(b"\x08");
    assert_eq!(parser.cursor_position().col, 4);

    // Reset and test tab
    parser.state.cursor.col = 5;
    parser.parse_bytes(b"\t");
    assert_eq!(parser.cursor_position().col, 8); // Next tab stop

    // Test line feed
    parser.parse_bytes(b"\n");
    assert_eq!(parser.cursor_position().row, 6);
}

#[test]
fn test_save_restore_cursor() {
    let mut parser = TerminalParser::new();

    // Set position
    parser.state.cursor.row = 10;
    parser.state.cursor.col = 20;

    // Save cursor (CSI s)
    parser.parse_bytes(b"\x1B[s");

    // Move cursor
    parser.parse_bytes(b"\x1B[1;1H");
    assert_eq!(parser.cursor_position().row, 0);
    assert_eq!(parser.cursor_position().col, 0);

    // Restore cursor (CSI u)
    parser.parse_bytes(b"\x1B[u");
    assert_eq!(parser.cursor_position().row, 10);
    assert_eq!(parser.cursor_position().col, 20);
}

#[test]
fn test_esc_save_restore() {
    let mut parser = TerminalParser::new();

    // Set position and attributes
    parser.state.cursor.row = 5;
    parser.state.cursor.col = 10;
    parser.state.attributes.bold = true;

    // Save cursor (ESC 7)
    parser.parse_bytes(b"\x1B7");

    // Reset
    parser.parse_bytes(b"\x1B[0m");
    parser.state.cursor.row = 0;
    parser.state.cursor.col = 0;

    // Restore cursor (ESC 8)
    parser.parse_bytes(b"\x1B8");

    assert_eq!(parser.cursor_position().row, 5);
    assert_eq!(parser.cursor_position().col, 10);
}

#[test]
fn test_combined_sequences() {
    let mut parser = TerminalParser::new();

    // Complex sequence: bold, red fg, move to row 10, col 20
    parser.parse_bytes(b"\x1B[1;31m\x1B[10;20H");

    assert!(parser.attributes().bold);
    assert_eq!(parser.foreground_color(), Color::Indexed(1)); // Red
    assert_eq!(parser.cursor_position().row, 9);
    assert_eq!(parser.cursor_position().col, 19);
}

// ===== Scroll Region Tests =====

#[test]
fn test_scroll_region_default() {
    let parser = TerminalParser::with_size(80, 24);

    // Default scroll region should be full screen
    assert_eq!(parser.state.scroll_region_top, 0);
    assert_eq!(parser.state.scroll_region_bottom, 23);
}

#[test]
fn test_decstbm_set_scroll_region() {
    let mut parser = TerminalParser::with_size(80, 24);

    // Set scroll region to rows 5-15 (1-indexed)
    // CSI 5 ; 15 r
    parser.parse_bytes(b"\x1B[5;15r");

    // Convert to 0-indexed: 4-14
    assert_eq!(parser.state.scroll_region_top, 4);
    assert_eq!(parser.state.scroll_region_bottom, 14);

    // Cursor should move to home
    assert_eq!(parser.cursor_position().row, 0);
    assert_eq!(parser.cursor_position().col, 0);
}

#[test]
fn test_decstbm_full_screen() {
    let mut parser = TerminalParser::with_size(80, 24);

    // First set a custom region
    parser.parse_bytes(b"\x1B[5;15r");
    assert_eq!(parser.state.scroll_region_top, 4);
    assert_eq!(parser.state.scroll_region_bottom, 14);

    // Reset to full screen with CSI r (no params = full screen)
    parser.parse_bytes(b"\x1B[r");
    assert_eq!(parser.state.scroll_region_top, 0);
    assert_eq!(parser.state.scroll_region_bottom, 23);
}

#[test]
fn test_decstbm_invalid_region() {
    let mut parser = TerminalParser::with_size(80, 24);

    // Try to set invalid region (top >= bottom)
    parser.parse_bytes(b"\x1B[15;5r");

    // Should not change from default
    assert_eq!(parser.state.scroll_region_top, 0);
    assert_eq!(parser.state.scroll_region_bottom, 23);
}

#[test]
fn test_decstbm_single_param() {
    let mut parser = TerminalParser::with_size(80, 24);

    // CSI 5 r - set top margin only, bottom defaults to screen bottom
    parser.parse_bytes(b"\x1B[5r");

    assert_eq!(parser.state.scroll_region_top, 4);
    assert_eq!(parser.state.scroll_region_bottom, 23);
}

#[test]
fn test_scroll_region_state() {
    let mut state = ParserState::default();
    state.set_terminal_size(24);

    assert_eq!(state.scroll_region_top, 0);
    assert_eq!(state.scroll_region_bottom, 23);
    assert!(!state.has_scroll_region(24));

    state.scroll_region_top = 5;
    state.scroll_region_bottom = 15;
    assert!(state.has_scroll_region(24));

    // A region that differs only in its bottom row is custom too
    state.scroll_region_top = 0;
    state.scroll_region_bottom = 5;
    assert!(state.has_scroll_region(24));
}

#[test]
fn test_cursor_in_scroll_region() {
    let mut state = ParserState::default();
    state.set_terminal_size(24);
    state.scroll_region_top = 5;
    state.scroll_region_bottom = 15;

    state.cursor.row = 3;
    assert!(!state.cursor_in_scroll_region(24));

    state.cursor.row = 10;
    assert!(state.cursor_in_scroll_region(24));

    state.cursor.row = 15;
    assert!(state.cursor_in_scroll_region(24));
}

#[test]
fn test_reset_clears_scroll_region() {
    let mut parser = TerminalParser::with_size(80, 24);

    // Set a scroll region, then RIS (ESC c) resets it to full screen
    parser.parse_bytes(b"\x1B[5;15r");
    assert_eq!(parser.state.scroll_region_top, 4);
    assert_eq!(parser.state.scroll_region_bottom, 14);

    parser.parse_bytes(b"\x1Bc");

    assert_eq!(parser.state.scroll_region_top, 0);
    assert_eq!(parser.state.scroll_region_bottom, 23);
}

#[test]
fn test_save_restore_includes_scroll_region() {
    let mut parser = TerminalParser::with_size(80, 24);

    // Set scroll region and save it (ESC 7)
    parser.parse_bytes(b"\x1B[5;15r");
    parser.parse_bytes(b"\x1B7");

    // Change scroll region
    parser.parse_bytes(b"\x1B[2;10r");
    assert_eq!(parser.state.scroll_region_top, 1);
    assert_eq!(parser.state.scroll_region_bottom, 9);

    // Restore (ESC 8)
    parser.parse_bytes(b"\x1B8");

    assert_eq!(parser.state.scroll_region_top, 4);
    assert_eq!(parser.state.scroll_region_bottom, 14);
}

// ===== Parser-to-grid pipeline scenarios =====

#[test]
fn test_cursor_position_sequence_on_grid() {
    // ESC[5;10H on an 80x24 grid puts the cursor at (4, 9), 0-indexed,
    // both in the parser and in the grid it drives.
    let mut parser = TerminalParser::with_size(80, 24);
    let mut grid = TerminalGrid::with_size(80, 24);
    parser.parse_bytes_with_output(b"\x1B[5;10H", &mut grid);
    assert_eq!(parser.cursor_position().row, 4);
    assert_eq!(parser.cursor_position().col, 9);
    assert_eq!(grid.cursor().row, 4);
    assert_eq!(grid.cursor().col, 9);
}

#[test]
fn test_wrap_and_scroll_pipeline() {
    // On a 5x3 grid, writing "ABCDEF" wraps: row 0 reads "ABCDE", the
    // cursor sits at (1, 1), and cell (1, 0) holds 'F'.
    let mut parser = TerminalParser::with_size(5, 3);
    let mut grid = TerminalGrid::with_size(5, 3);
    parser.parse_bytes_with_output(b"ABCDEF", &mut grid);
    assert_eq!(grid.row_to_string(0), "ABCDE");
    assert_eq!(grid.cursor().row, 1);
    assert_eq!(grid.cursor().col, 1);
    assert_eq!(grid.get_cell(1, 0).unwrap().char, 'F');
}

#[test]
fn test_region_linefeed_pipeline() {
    // With scroll region rows 2..=5 and the cursor on the region's bottom
    // row, a line feed scrolls only the region: row 2 takes row 3's text
    // and the cursor stays on row 5.
    let mut parser = TerminalParser::with_size(5, 10);
    let mut grid = TerminalGrid::with_size(5, 10);
    for row in 0..10u8 {
        grid.move_cursor(row as usize, 0);
        for _ in 0..5 {
            grid.put_char((b'0' + row) as char);
        }
    }
    // DECSTBM rows 3..6 (1-indexed) = 2..5 (0-indexed), then move to row 6
    parser.parse_bytes_with_output(b"\x1B[3;6r\x1B[6;1H", &mut grid);
    assert_eq!(grid.cursor().row, 5);
    parser.parse_bytes_with_output(b"\n", &mut grid);
    assert_eq!(grid.cursor().row, 5);
    assert_eq!(grid.row_to_string(2), "33333");
    assert_eq!(grid.row_to_string(5), "     ");
    // Rows outside the region kept their text
    assert_eq!(grid.row_to_string(0), "00000");
    assert_eq!(grid.row_to_string(1), "11111");
    assert_eq!(grid.row_to_string(6), "66666");
    assert_eq!(grid.row_to_string(9), "99999");
}

#[test]
fn test_sgr_roundtrip_pipeline() {
    // CSI 1;31;4 m styles the pen; CSI 0 m returns it to defaults.
    let mut parser = TerminalParser::new();
    parser.parse_bytes(b"\x1B[1;31;4m");
    assert!(parser.attributes().bold);
    assert!(parser.attributes().underline);
    assert_eq!(parser.foreground_color(), Color::Indexed(1));
    parser.parse_bytes(b"\x1B[0m");
    assert_eq!(parser.attributes(), Default::default());
    assert_eq!(parser.foreground_color(), Color::Default);
    assert_eq!(parser.background_color(), Color::Default);
}

#[test]
fn test_bright_and_background_colors() {
    let mut parser = TerminalParser::new();
    parser.parse_bytes(b"\x1B[94m");
    assert_eq!(parser.foreground_color(), Color::Indexed(12));
    parser.parse_bytes(b"\x1B[41m");
    assert_eq!(parser.background_color(), Color::Indexed(1));
    parser.parse_bytes(b"\x1B[105m");
    assert_eq!(parser.background_color(), Color::Indexed(13));
    parser.parse_bytes(b"\x1B[48;5;17m");
    assert_eq!(parser.background_color(), Color::Indexed(17));
    parser.parse_bytes(b"\x1B[49m");
    assert_eq!(parser.background_color(), Color::Default);
}

#[test]
fn test_malformed_sgr_is_dropped() {
    // A truncated extended-color introducer changes no color; the stray
    // trailing parameter is processed on its own.
    let mut parser = TerminalParser::new();
    parser.parse_bytes(b"\x1B[38;5m");
    assert_eq!(parser.foreground_color(), Color::Default);
    assert!(parser.attributes().blink); // the orphaned 5
}

#[test]
fn test_utf8_text_reaches_grid() {
    let mut parser = TerminalParser::with_size(10, 3);
    let mut grid = TerminalGrid::with_size(10, 3);
    parser.parse_bytes_with_output("héllo".as_bytes(), &mut grid);
    assert_eq!(grid.get_cell(0, 0).unwrap().char, 'h');
    assert_eq!(grid.get_cell(0, 1).unwrap().char, 'é');
    assert_eq!(grid.get_cell(0, 4).unwrap().char, 'o');
    assert_eq!(grid.cursor().col, 5);
}

#[test]
fn test_osc_is_swallowed() {
    let mut parser = TerminalParser::with_size(10, 3);
    let mut grid = TerminalGrid::with_size(10, 3);
    // OSC title sequence terminated by BEL; the payload must not print
    parser.parse_bytes_with_output(b"\x1B]0;title\x07ok", &mut grid);
    assert_eq!(grid.row_to_string(0), "ok        ");
}

#[test]
fn test_reverse_index_scrolls_region_down() {
    let mut parser = TerminalParser::with_size(5, 6);
    let mut grid = TerminalGrid::with_size(5, 6);
    for row in 0..6u8 {
        grid.move_cursor(row as usize, 0);
        for _ in 0..5 {
            grid.put_char((b'a' + row) as char);
        }
    }
    // Region rows 2..5 (1-indexed) = 1..4 (0-indexed); cursor to region top
    parser.parse_bytes_with_output(b"\x1B[2;5r\x1B[2;1H", &mut grid);
    parser.parse_bytes_with_output(b"\x1BM", &mut grid);
    assert_eq!(grid.row_to_string(0), "aaaaa");
    assert_eq!(grid.row_to_string(1), "     ");
    assert_eq!(grid.row_to_string(2), "bbbbb");
    assert_eq!(grid.row_to_string(5), "fffff");
}

#[test]
fn test_erase_in_display_homes_cursor() {
    let mut parser = TerminalParser::with_size(5, 3);
    let mut grid = TerminalGrid::with_size(5, 3);
    parser.parse_bytes_with_output(b"abc\x1B[2J", &mut grid);
    assert_eq!(parser.cursor_position().row, 0);
    assert_eq!(parser.cursor_position().col, 0);
    assert_eq!(grid.cursor().row, 0);
    assert_eq!(grid.cursor().col, 0);
    assert_eq!(grid.row_to_string(0), "     ");
}

#[test]
fn test_parser_resize() {
    let mut parser = TerminalParser::with_size(80, 24);
    parser.resize(100, 50);
    assert_eq!(parser.output().len(), 100 * 50);
    assert_eq!(parser.state.scroll_region_bottom, 49);
}

#[test]
fn test_insert_delete_lines_pipeline() {
    let mut parser = TerminalParser::with_size(3, 4);
    let mut grid = TerminalGrid::with_size(3, 4);
    for row in 0..4u8 {
        grid.move_cursor(row as usize, 0);
        for _ in 0..3 {
            grid.put_char((b'a' + row) as char);
        }
    }
    // Cursor to row 2 (1-indexed), insert one blank line (CSI L)
    parser.parse_bytes_with_output(b"\x1B[2;1H\x1B[L", &mut grid);
    assert_eq!(grid.row_to_string(0), "aaa");
    assert_eq!(grid.row_to_string(1), "   ");
    assert_eq!(grid.row_to_string(2), "bbb");
    assert_eq!(grid.row_to_string(3), "ccc"); // ddd pushed off

    // Delete that blank line again (CSI M)
    parser.parse_bytes_with_output(b"\x1B[M", &mut grid);
    assert_eq!(grid.row_to_string(0), "aaa");
    assert_eq!(grid.row_to_string(1), "bbb");
    assert_eq!(grid.row_to_string(2), "ccc");
    assert_eq!(grid.row_to_string(3), "   ");
}

#[test]
fn test_scroll_commands_pipeline() {
    let mut parser = TerminalParser::with_size(3, 3);
    let mut grid = TerminalGrid::with_size(3, 3);
    for row in 0..3u8 {
        grid.move_cursor(row as usize, 0);
        for _ in 0..3 {
            grid.put_char((b'a' + row) as char);
        }
    }
    // SU scrolls the (full-screen) region up; the cursor is unaffected
    parser.parse_bytes_with_output(b"\x1B[2;2H\x1B[S", &mut grid);
    assert_eq!(grid.row_to_string(0), "bbb");
    assert_eq!(grid.row_to_string(2), "   ");
    assert_eq!(grid.cursor().row, 1);
    // SD scrolls it back down
    parser.parse_bytes_with_output(b"\x1B[T", &mut grid);
    assert_eq!(grid.row_to_string(0), "   ");
    assert_eq!(grid.row_to_string(1), "bbb");
}

#[test]
fn test_cursor_line_and_column_commands() {
    let mut parser = TerminalParser::with_size(20, 10);
    // CNL: down two rows, column 0
    parser.parse_bytes(b"\x1B[3;7H\x1B[2E");
    assert_eq!(parser.cursor_position(), CursorPosition { row: 4, col: 0 });
    // CPL: up one row, column 0
    parser.parse_bytes(b"\x1B[5C\x1B[1F");
    assert_eq!(parser.cursor_position(), CursorPosition { row: 3, col: 0 });
    // CHA: absolute column, 1-indexed
    parser.parse_bytes(b"\x1B[9G");
    assert_eq!(parser.cursor_position(), CursorPosition { row: 3, col: 8 });
    // CUU/CUB with explicit counts
    parser.parse_bytes(b"\x1B[2A\x1B[3D");
    assert_eq!(parser.cursor_position(), CursorPosition { row: 1, col: 5 });
}

#[test]
fn test_cursor_movement_clamps_at_edges() {
    let mut parser = TerminalParser::with_size(10, 5);
    parser.parse_bytes(b"\x1B[99B");
    assert_eq!(parser.cursor_position().row, 4);
    parser.parse_bytes(b"\x1B[99C");
    assert_eq!(parser.cursor_position().col, 9);
    parser.parse_bytes(b"\x1B[99A\x1B[99D");
    assert_eq!(parser.cursor_position(), CursorPosition { row: 0, col: 0 });
}
