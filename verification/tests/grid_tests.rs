//! Tests for the terminal grid: cells, cursor movement, writing, scrolling,
//! clearing, resizing, and scrollback.

use warp_foss::terminal::grid::Cell;
use warp_foss::terminal::grid::Cursor;
use warp_foss::terminal::grid::TerminalGrid;
use warp_foss::terminal::parser::Color;
use warp_foss::terminal::parser::TextAttributes;

#[test]
fn test_grid_creation() {
    let grid = TerminalGrid::new();
    assert_eq!(grid.cols(), 80);
    assert_eq!(grid.rows(), 24);
    assert_eq!(grid.cursor(), Cursor::origin());
}

#[test]
fn test_grid_with_size() {
    let grid = TerminalGrid::with_size(120, 40);
    assert_eq!(grid.cols(), 120);
    assert_eq!(grid.rows(), 40);
}

#[test]
fn test_cell_default() {
    let cell = Cell::default();
    assert_eq!(cell.char, ' ');
    assert_eq!(cell.fg_color, Color::Default);
    assert_eq!(cell.bg_color, Color::Default);
    assert!(cell.is_empty());
}

#[test]
fn test_put_char() {
    let mut grid = TerminalGrid::with_size(10, 5);

    grid.put_char('H');
    assert_eq!(grid.cursor().col, 1);
    assert_eq!(grid.get_cell(0, 0).unwrap().char, 'H');

    grid.put_char('i');
    assert_eq!(grid.cursor().col, 2);
    assert_eq!(grid.get_cell(0, 1).unwrap().char, 'i');
}

#[test]
fn test_put_char_with_color() {
    let mut grid = TerminalGrid::new();
    grid.set_foreground(Color::Indexed(1));
    grid.set_background(Color::Rgb(0, 0, 0));

    grid.put_char('X');
    let cell = grid.get_cell(0, 0).unwrap();
    assert_eq!(cell.char, 'X');
    assert_eq!(cell.fg_color, Color::Indexed(1));
    assert_eq!(cell.bg_color, Color::Rgb(0, 0, 0));
}

#[test]
fn test_put_char_with_attributes() {
    let mut grid = TerminalGrid::new();
    let mut attrs = TextAttributes::default();
    attrs.bold = true;
    attrs.underline = true;
    grid.set_attributes(attrs);

    grid.put_char('B');
    let cell = grid.get_cell(0, 0).unwrap();
    assert!(cell.attributes.bold);
    assert!(cell.attributes.underline);
}

#[test]
fn test_move_cursor() {
    let mut grid = TerminalGrid::new();

    grid.move_cursor(5, 10);
    assert_eq!(grid.cursor().row, 5);
    assert_eq!(grid.cursor().col, 10);

    // Test clamping
    grid.move_cursor(100, 100);
    assert_eq!(grid.cursor().row, 23); // rows - 1
    assert_eq!(grid.cursor().col, 79); // cols - 1
}

#[test]
fn test_move_cursor_relative() {
    let mut grid = TerminalGrid::new();

    grid.move_cursor(10, 10);
    grid.move_cursor_relative(2, 5);
    assert_eq!(grid.cursor().row, 12);
    assert_eq!(grid.cursor().col, 15);

    grid.move_cursor_relative(-5, -3);
    assert_eq!(grid.cursor().row, 7);
    assert_eq!(grid.cursor().col, 12);

    // Test clamping
    grid.move_cursor_relative(-100, -100);
    assert_eq!(grid.cursor().row, 0);
    assert_eq!(grid.cursor().col, 0);
}

#[test]
fn test_line_wrapping() {
    let mut grid = TerminalGrid::with_size(5, 3);

    // Write 5 characters to fill first line
    for c in "ABCDE".chars() {
        grid.put_char(c);
    }
    assert_eq!(grid.cursor().row, 0);
    assert_eq!(grid.cursor().col, 5); // At end of line

    // One more character should wrap
    grid.put_char('F');
    assert_eq!(grid.cursor().row, 1);
    assert_eq!(grid.cursor().col, 1);

    // Check content
    assert_eq!(grid.row_to_string(0), "ABCDE");
    assert_eq!(grid.get_cell(1, 0).unwrap().char, 'F');
}

#[test]
fn test_scroll_up() {
    let mut grid = TerminalGrid::with_size(5, 3);

    // Fill grid with identifiable content
    grid.move_cursor(0, 0);
    for c in "AAAAA".chars() {
        grid.put_char(c);
    }
    grid.move_cursor(1, 0);
    for c in "BBBBB".chars() {
        grid.put_char(c);
    }
    grid.move_cursor(2, 0);
    for c in "CCCCC".chars() {
        grid.put_char(c);
    }

    // Scroll up 1 line
    grid.scroll_up(1);

    // Check that B is now at row 0, C at row 1, and row 2 is empty
    assert_eq!(grid.row_to_string(0), "BBBBB");
    assert_eq!(grid.row_to_string(1), "CCCCC");
    assert_eq!(grid.row_to_string(2), "     ");

    // Check scrollback
    assert_eq!(grid.scrollback_len(), 1);
    assert_eq!(
        grid.scrollback()[0].iter().map(|c| c.char).collect::<String>(),
        "AAAAA"
    );
}

#[test]
fn test_clear_screen() {
    let mut grid = TerminalGrid::with_size(5, 3);

    // Write some content
    grid.put_char('X');
    grid.put_char('Y');
    grid.put_char('Z');

    grid.clear_screen();

    // All cells should be empty
    for row in grid.as_rows() {
        for cell in row {
            assert!(cell.is_empty());
        }
    }
}

#[test]
fn test_clear_line() {
    let mut grid = TerminalGrid::with_size(5, 3);

    // Fill first two rows
    grid.move_cursor(0, 0);
    for c in "AAAAA".chars() {
        grid.put_char(c);
    }
    grid.move_cursor(1, 0);
    for c in "BBBBB".chars() {
        grid.put_char(c);
    }

    // Clear first row
    grid.move_cursor(0, 0);
    grid.clear_line();

    assert_eq!(grid.row_to_string(0), "     ");
    assert_eq!(grid.row_to_string(1), "BBBBB");
}

#[test]
fn test_clear_to_end_of_line() {
    let mut grid = TerminalGrid::with_size(5, 3);

    grid.move_cursor(0, 0);
    for c in "ABCDE".chars() {
        grid.put_char(c);
    }

    // Clear from column 2 to end
    grid.move_cursor(0, 2);
    grid.clear_to_end_of_line();

    assert_eq!(grid.row_to_string(0), "AB   ");
}

#[test]
fn grid_test_resize() {
    let mut grid = TerminalGrid::with_size(10, 5);

    // Write some content
    grid.move_cursor(0, 0);
    for c in "ABCDEFGHIJ".chars() {
        grid.put_char(c);
    }

    // Resize larger
    grid.resize(15, 8);
    assert_eq!(grid.cols(), 15);
    assert_eq!(grid.rows(), 8);

    // Original content should be preserved
    assert_eq!(grid.row_to_string(0), "ABCDEFGHIJ     ");

    // Resize smaller
    grid.resize(5, 3);
    assert_eq!(grid.cols(), 5);
    assert_eq!(grid.rows(), 3);
    assert_eq!(grid.row_to_string(0), "ABCDE");
}

#[test]
fn test_scrollback() {
    let mut grid = TerminalGrid::with_scrollback(5, 2, 10);

    // Fill first row
    grid.move_cursor(0, 0);
    for c in "AAAAA".chars() {
        grid.put_char(c);
    }

    // Fill second row
    grid.move_cursor(1, 0);
    for c in "BBBBB".chars() {
        grid.put_char(c);
    }

    // One more line should scroll
    grid.move_cursor(1, 0);
    for c in "CCCCC".chars() {
        grid.put_char(c);
    }

    // Scroll up
    grid.scroll_up(1);

    assert_eq!(grid.scrollback_len(), 1);
    assert_eq!(
        grid.scrollback()[0].iter().map(|c| c.char).collect::<String>(),
        "AAAAA"
    );
}

#[test]
fn test_carriage_return() {
    let mut grid = TerminalGrid::new();
    grid.move_cursor(5, 10);

    grid.carriage_return();
    assert_eq!(grid.cursor().col, 0);
    assert_eq!(grid.cursor().row, 5); // Row unchanged
}

#[test]
fn test_linefeed() {
    let mut grid = TerminalGrid::with_size(5, 3);

    grid.move_cursor(0, 2);
    grid.linefeed();
    assert_eq!(grid.cursor().row, 1);
    assert_eq!(grid.cursor().col, 2); // Col unchanged

    // At bottom, should scroll
    grid.move_cursor(2, 0);
    for c in "LAST!".chars() {
        grid.put_char(c);
    }
    grid.linefeed();
    assert_eq!(grid.cursor().row, 2); // Still at bottom after scroll
    assert_eq!(grid.scrollback_len(), 1);
}

#[test]
fn test_backspace() {
    let mut grid = TerminalGrid::new();
    grid.move_cursor(5, 10);

    grid.backspace();
    assert_eq!(grid.cursor().col, 9);

    // At column 0, should stay at 0
    grid.move_cursor(5, 0);
    grid.backspace();
    assert_eq!(grid.cursor().col, 0);
}

#[test]
fn test_tab() {
    let mut grid = TerminalGrid::with_size(20, 5);

    grid.move_cursor(0, 0);
    grid.tab();
    assert_eq!(grid.cursor().col, 8);

    grid.tab();
    assert_eq!(grid.cursor().col, 16);

    grid.tab();
    assert_eq!(grid.cursor().col, 19); // Clamped to max
}

#[test]
fn test_insert_delete_lines() {
    let mut grid = TerminalGrid::with_size(5, 5);

    // Fill with identifiable content
    for (row, ch) in ['A', 'B', 'C', 'D', 'E'].iter().enumerate() {
        grid.move_cursor(row, 0);
        for _ in 0..5 {
            grid.put_char(*ch);
        }
    }

    // Insert 2 blank lines at row 2
    grid.move_cursor(2, 0);
    grid.insert_lines(2);

    assert_eq!(grid.row_to_string(0), "AAAAA");
    assert_eq!(grid.row_to_string(1), "BBBBB");
    assert_eq!(grid.row_to_string(2), "     "); // Inserted blank
    assert_eq!(grid.row_to_string(3), "     "); // Inserted blank
    assert_eq!(grid.row_to_string(4), "CCCCC"); // Shifted up
    // D and E are lost

    // Delete 1 line at row 0
    grid.move_cursor(0, 0);
    grid.delete_lines(1);

    assert_eq!(grid.row_to_string(0), "BBBBB"); // Shifted up
}

#[test]
fn grid_test_save_restore_cursor() {
    let mut grid = TerminalGrid::new();

    grid.move_cursor(10, 20);
    grid.set_foreground(Color::Indexed(5));
    grid.set_background(Color::Rgb(100, 100, 100));
    let mut attrs = TextAttributes::default();
    attrs.bold = true;
    grid.set_attributes(attrs);

    let saved = grid.save_cursor();

    // Change state
    grid.move_cursor(0, 0);
    grid.set_foreground(Color::Default);
    grid.set_background(Color::Default);
    grid.set_attributes(TextAttributes::default());

    // Restore
    grid.restore_cursor(saved);

    assert_eq!(grid.cursor().row, 10);
    assert_eq!(grid.cursor().col, 20);
    let now = grid.save_cursor();
    assert_eq!(now.2, Color::Indexed(5));
    assert_eq!(now.3, Color::Rgb(100, 100, 100));
    assert!(grid.attributes().bold);
}

#[test]
fn test_to_string() {
    let mut grid = TerminalGrid::with_size(5, 2);

    grid.move_cursor(0, 0);
    for c in "Hello".chars() {
        grid.put_char(c);
    }
    grid.move_cursor(1, 0);
    for c in "World".chars() {
        grid.put_char(c);
    }

    assert_eq!(grid.to_string(), "Hello\nWorld");
}

#[test]
fn test_scrollback_limit() {
    let mut grid = TerminalGrid::with_scrollback(5, 2, 3);

    // Scroll more than max_scrollback
    for ch in ['A', 'B', 'C', 'D', 'E'] {
        grid.scroll_up(1);
        grid.move_cursor(0, 0);
        for _ in 0..5 {
            grid.put_char(ch);
        }
    }

    // Should only keep last 3
    assert_eq!(grid.scrollback_len(), 3);
}

#[test]
fn test_get_cell_out_of_bounds() {
    let grid = TerminalGrid::with_size(10, 5);

    assert!(grid.get_cell(0, 0).is_some());
    assert!(grid.get_cell(4, 9).is_some());
    assert!(grid.get_cell(5, 0).is_none()); // Row out of bounds
    assert!(grid.get_cell(0, 10).is_none()); // Col out of bounds
}

#[test]
fn test_reset() {
    let mut grid = TerminalGrid::with_size(5, 3);

    grid.move_cursor(2, 4);
    grid.set_foreground(Color::Indexed(1));
    grid.set_background(Color::Rgb(50, 50, 50));
    let mut attrs = TextAttributes::default();
    attrs.bold = true;
    grid.set_attributes(attrs);

    grid.put_char('X');

    grid.reset();

    assert_eq!(grid.cursor(), Cursor::default());
    let now = grid.save_cursor();
    assert_eq!(now.2, Color::Default);
    assert_eq!(now.3, Color::Default);
    assert_eq!(grid.attributes(), TextAttributes::default());
    assert!(grid.scrollback().is_empty());

    // All cells should be empty
    for row in grid.as_rows() {
        for cell in row {
            assert!(cell.is_empty());
        }
    }
}

// ===== Scroll Region Tests =====

#[test]
fn test_scroll_up_in_region() {
    let mut grid = TerminalGrid::with_size(5, 10);

    // Fill grid with identifiable content (0-9)
    for row in 0..10 {
        grid.move_cursor(row, 0);
        let ch = (b'0' + row as u8) as char;
        for _ in 0..5 {
            grid.put_char(ch);
        }
    }

    // Scroll region 3-6 (0-indexed) up by 1
    grid.scroll_up_in_region(1, 3, 6);

    // Check rows outside region are unchanged
    assert_eq!(grid.row_to_string(0), "00000");
    assert_eq!(grid.row_to_string(1), "11111");
    assert_eq!(grid.row_to_string(2), "22222");

    // Row 3 should now have content from row 4
    assert_eq!(grid.row_to_string(3), "44444");
    assert_eq!(grid.row_to_string(4), "55555");
    assert_eq!(grid.row_to_string(5), "66666");

    // Row 6 (bottom of region) should be cleared
    assert_eq!(grid.row_to_string(6), "     ");

    // Rows below region unchanged
    assert_eq!(grid.row_to_string(7), "77777");
    assert_eq!(grid.row_to_string(8), "88888");
    assert_eq!(grid.row_to_string(9), "99999");
}

#[test]
fn test_scroll_down_in_region() {
    let mut grid = TerminalGrid::with_size(5, 10);

    // Fill grid with identifiable content (0-9)
    for row in 0..10 {
        grid.move_cursor(row, 0);
        let ch = (b'0' + row as u8) as char;
        for _ in 0..5 {
            grid.put_char(ch);
        }
    }

    // Scroll region 3-6 (0-indexed) down by 1
    grid.scroll_down_in_region(1, 3, 6);

    // Check rows outside region are unchanged
    assert_eq!(grid.row_to_string(0), "00000");
    assert_eq!(grid.row_to_string(1), "11111");
    assert_eq!(grid.row_to_string(2), "22222");

    // Row 3 (top of region) should be cleared
    assert_eq!(grid.row_to_string(3), "     ");

    // Rows 4-6 should have content from rows 3-5
    assert_eq!(grid.row_to_string(4), "33333");
    assert_eq!(grid.row_to_string(5), "44444");
    assert_eq!(grid.row_to_string(6), "55555");

    // Rows below region unchanged
    assert_eq!(grid.row_to_string(7), "77777");
    assert_eq!(grid.row_to_string(8), "88888");
    assert_eq!(grid.row_to_string(9), "99999");
}

#[test]
fn test_scroll_region_boundaries() {
    let mut grid = TerminalGrid::with_size(5, 5);

    // Fill grid
    for row in 0..5 {
        grid.move_cursor(row, 0);
        let ch = (b'A' + row as u8) as char;
        for _ in 0..5 {
            grid.put_char(ch);
        }
    }

    // Invalid: top >= bottom - should be no-op
    grid.scroll_up_in_region(1, 3, 2);
    assert_eq!(grid.row_to_string(0), "AAAAA");
    assert_eq!(grid.row_to_string(3), "DDDDD");

    // Invalid: n == 0 - should be no-op
    grid.scroll_up_in_region(0, 0, 4);
    assert_eq!(grid.row_to_string(0), "AAAAA");
}

#[test]
fn test_linefeed_in_region() {
    let mut grid = TerminalGrid::with_size(5, 10);

    // Fill region 2-5
    for row in 2..=5 {
        grid.move_cursor(row, 0);
        let ch = (b'0' + row as u8) as char;
        for _ in 0..5 {
            grid.put_char(ch);
        }
    }

    // Cursor at row 4, not at bottom of region
    grid.move_cursor(4, 2);
    grid.linefeed_in_region(2, 5);

    // Cursor should move down
    assert_eq!(grid.cursor().row, 5);

    // Cursor at bottom of region
    grid.linefeed_in_region(2, 5);

    // Should scroll the region, cursor stays at row 5
    assert_eq!(grid.cursor().row, 5);

    // Row 2 should now have row 3's content
    assert_eq!(grid.row_to_string(2), "33333");
}

#[test]
fn test_erase_in_display_modes() {
    let mut grid = TerminalGrid::with_size(5, 3);

    // Fill grid
    for row in 0..3 {
        grid.move_cursor(row, 0);
        let ch = (b'A' + row as u8) as char;
        for _ in 0..5 {
            grid.put_char(ch);
        }
    }

    // Mode 0: erase from cursor to end
    grid.move_cursor(1, 2);
    grid.erase_in_display(0);
    assert_eq!(grid.row_to_string(0), "AAAAA"); // Unchanged
    assert_eq!(grid.row_to_string(1), "BB   "); // Cleared from col 2
    assert_eq!(grid.row_to_string(2), "     "); // Entire row cleared

    // Reset and test mode 1: erase from start to cursor
    for row in 0..3 {
        grid.move_cursor(row, 0);
        let ch = (b'A' + row as u8) as char;
        for _ in 0..5 {
            grid.put_char(ch);
        }
    }
    grid.move_cursor(1, 2);
    grid.erase_in_display(1);
    assert_eq!(grid.row_to_string(0), "     "); // Entire row cleared
    assert_eq!(grid.row_to_string(1), "   BB"); // Cleared up to col 2 (inclusive)
    assert_eq!(grid.row_to_string(2), "CCCCC"); // Unchanged
}

#[test]
fn test_erase_in_line_modes() {
    let mut grid = TerminalGrid::with_size(5, 3);

    // Fill first row
    grid.move_cursor(0, 0);
    for c in "ABCDE".chars() {
        grid.put_char(c);
    }

    // Mode 0: erase from cursor to end of line
    grid.move_cursor(0, 2);
    grid.erase_in_line(0);
    assert_eq!(grid.row_to_string(0), "AB   ");

    // Reset
    grid.move_cursor(0, 0);
    for c in "ABCDE".chars() {
        grid.put_char(c);
    }

    // Mode 1: erase from start to cursor
    grid.move_cursor(0, 2);
    grid.erase_in_line(1);
    assert_eq!(grid.row_to_string(0), "   DE");

    // Mode 2: erase entire line
    grid.erase_in_line(2);
    assert_eq!(grid.row_to_string(0), "     ");
}

// ===== Text Attribute Tests =====

#[test]
fn test_cell_with_attributes() {
    let mut attrs = TextAttributes::default();
    attrs.bold = true;
    attrs.italic = true;
    attrs.underline = true;
    attrs.blink = true;

    let cell = Cell::with_attributes('X', Color::Indexed(1), Color::Indexed(0), attrs);

    assert_eq!(cell.char, 'X');
    assert_eq!(cell.fg_color, Color::Indexed(1));
    assert_eq!(cell.bg_color, Color::Indexed(0));
    assert!(cell.attributes.bold);
    assert!(cell.attributes.italic);
    assert!(cell.attributes.underline);
    assert!(cell.attributes.blink);
}

#[test]
fn test_put_char_with_bold() {
    let mut grid = TerminalGrid::new();
    let mut attrs = TextAttributes::default();
    attrs.bold = true;
    grid.set_attributes(attrs);

    grid.put_char('B');
    let cell = grid.get_cell(0, 0).unwrap();
    assert!(cell.attributes.bold);
    assert_eq!(cell.char, 'B');
}

#[test]
fn test_put_char_with_italic() {
    let mut grid = TerminalGrid::new();
    let mut attrs = TextAttributes::default();
    attrs.italic = true;
    grid.set_attributes(attrs);

    grid.put_char('I');
    let cell = grid.get_cell(0, 0).unwrap();
    assert!(cell.attributes.italic);
    assert_eq!(cell.char, 'I');
}

#[test]
fn test_put_char_with_underline() {
    let mut grid = TerminalGrid::new();
    let mut attrs = TextAttributes::default();
    attrs.underline = true;
    grid.set_attributes(attrs);

    grid.put_char('U');
    let cell = grid.get_cell(0, 0).unwrap();
    assert!(cell.attributes.underline);
    assert_eq!(cell.char, 'U');
}

#[test]
fn test_put_char_with_blink() {
    let mut grid = TerminalGrid::new();
    let mut attrs = TextAttributes::default();
    attrs.blink = true;
    grid.set_attributes(attrs);

    grid.put_char('B');
    let cell = grid.get_cell(0, 0).unwrap();
    assert!(cell.attributes.blink);
    assert_eq!(cell.char, 'B');
}

#[test]
fn test_put_char_with_all_attributes() {
    let mut grid = TerminalGrid::new();
    let mut attrs = TextAttributes::default();
    attrs.bold = true;
    attrs.italic = true;
    attrs.underline = true;
    attrs.blink = true;
    grid.set_attributes(attrs);

    grid.put_char('A');
    let cell = grid.get_cell(0, 0).unwrap();
    assert!(cell.attributes.bold);
    assert!(cell.attributes.italic);
    assert!(cell.attributes.underline);
    assert!(cell.attributes.blink);
    assert_eq!(cell.char, 'A');
}

#[test]
fn test_attribute_persistence_across_cells() {
    let mut grid = TerminalGrid::new();
    let mut attrs = TextAttributes::default();
    attrs.bold = true;
    attrs.underline = true;
    grid.set_attributes(attrs);

    // Write multiple characters with same attributes
    grid.put_char('A');
    grid.put_char('B');
    grid.put_char('C');

    let cell_a = grid.get_cell(0, 0).unwrap();
    let cell_b = grid.get_cell(0, 1).unwrap();
    let cell_c = grid.get_cell(0, 2).unwrap();

    assert!(cell_a.attributes.bold && cell_a.attributes.underline);
    assert!(cell_b.attributes.bold && cell_b.attributes.underline);
    assert!(cell_c.attributes.bold && cell_c.attributes.underline);
}

#[test]
fn test_change_attributes_between_cells() {
    let mut grid = TerminalGrid::new();

    // First character with bold
    let mut attrs = TextAttributes::default();
    attrs.bold = true;
    grid.set_attributes(attrs);
    grid.put_char('A');

    // Second character with underline (not bold)
    attrs.bold = false;
    attrs.underline = true;
    grid.set_attributes(attrs);
    grid.put_char('B');

    // Third character with italic
    attrs.underline = false;
    attrs.italic = true;
    grid.set_attributes(attrs);
    grid.put_char('C');

    let cell_a = grid.get_cell(0, 0).unwrap();
    let cell_b = grid.get_cell(0, 1).unwrap();
    let cell_c = grid.get_cell(0, 2).unwrap();

    assert!(cell_a.attributes.bold && !cell_a.attributes.underline && !cell_a.attributes.italic);
    assert!(!cell_b.attributes.bold && cell_b.attributes.underline && !cell_b.attributes.italic);
    assert!(!cell_c.attributes.bold && !cell_c.attributes.underline && cell_c.attributes.italic);
}

#[test]
fn test_attributes_reset_in_cell() {
    let mut attrs = TextAttributes::default();
    attrs.bold = true;
    attrs.italic = true;
    attrs.underline = true;
    attrs.blink = true;

    let mut cell = Cell::with_attributes('X', Color::Default, Color::Default, attrs);
    assert!(!cell.is_empty()); // Has non-default attributes

    cell.reset();
    assert!(cell.is_empty()); // All defaults now
}

#[test]
fn test_grid_attributes_getter() {
    let mut grid = TerminalGrid::new();
    let mut attrs = TextAttributes::default();
    attrs.bold = true;
    attrs.italic = true;

    grid.set_attributes(attrs);
    let retrieved = grid.attributes();

    assert!(retrieved.bold);
    assert!(retrieved.italic);
    assert!(!retrieved.underline);
    assert!(!retrieved.blink);
}

#[test]
fn test_cell_attributes_equality() {
    let attrs1 = TextAttributes {
        bold: true,
        italic: false,
        underline: false,
        blink: false,
        ..Default::default()
    };

    let attrs2 = TextAttributes {
        bold: true,
        italic: false,
        underline: false,
        blink: false,
        ..Default::default()
    };

    let attrs3 = TextAttributes {
        bold: false,
        italic: true,
        ..Default::default()
    };

    assert_eq!(attrs1, attrs2);
    assert_ne!(attrs1, attrs3);
}

#[test]
fn test_text_attributes_copy() {
    let mut attrs1 = TextAttributes::default();
    attrs1.bold = true;
    attrs1.italic = true;

    let mut attrs2 = attrs1;

    assert!(attrs2.bold);
    assert!(attrs2.italic);

    // Modify attrs2 - shouldn't affect attrs1
    attrs2.bold = false;
    assert!(attrs1.bold);
    assert!(!attrs2.bold);
}

// ===== Invariant scenarios =====

#[test]
fn test_scrollback_keeps_most_recent() {
    // With the cap exceeded, exactly the newest rows remain, oldest first.
    let mut grid = TerminalGrid::with_scrollback(3, 1, 2);
    for ch in ['a', 'b', 'c', 'd'] {
        grid.move_cursor(0, 0);
        for _ in 0..3 {
            grid.put_char(ch);
        }
        grid.scroll_up(1);
    }
    assert_eq!(grid.scrollback_len(), 2);
    let texts: Vec<String> = grid
        .scrollback()
        .iter()
        .map(|row| row.iter().map(|c| c.char).collect())
        .collect();
    assert_eq!(texts, vec!["ccc".to_string(), "ddd".to_string()]);
}

#[test]
fn test_zero_capacity_scrollback() {
    let mut grid = TerminalGrid::with_scrollback(3, 2, 0);
    grid.put_char('x');
    grid.scroll_up(1);
    grid.scroll_up(1);
    assert_eq!(grid.scrollback_len(), 0);
}

#[test]
fn test_reset_twice_is_reset_once() {
    let mut grid = TerminalGrid::with_size(4, 3);
    for c in "abcdefgh".chars() {
        grid.put_char(c);
    }
    grid.set_foreground(Color::Indexed(3));
    grid.scroll_up(1);

    grid.reset();
    let once_text = grid.to_string();
    let once_cursor = grid.cursor();
    let once_state = grid.save_cursor();
    let once_scrollback = grid.scrollback_len();

    grid.reset();
    assert_eq!(grid.to_string(), once_text);
    assert_eq!(grid.cursor(), once_cursor);
    assert_eq!(grid.save_cursor(), once_state);
    assert_eq!(grid.scrollback_len(), once_scrollback);
}

#[test]
fn test_erase_unknown_modes_are_noops() {
    let mut grid = TerminalGrid::with_size(3, 2);
    for c in "abcdef".chars() {
        grid.put_char(c);
    }
    grid.move_cursor(0, 1);
    grid.erase_in_display(7);
    grid.erase_in_line(9);
    assert_eq!(grid.row_to_string(0), "abc");
    assert_eq!(grid.row_to_string(1), "def");
}

#[test]
fn test_back_tab() {
    let mut grid = TerminalGrid::with_size(40, 5);
    grid.move_cursor(0, 20);
    grid.back_tab();
    assert_eq!(grid.cursor().col, 16);
    grid.back_tab();
    assert_eq!(grid.cursor().col, 8);
    grid.move_cursor(0, 0);
    grid.back_tab();
    assert_eq!(grid.cursor().col, 0);
}

#[test]
fn test_put_char_at_leaves_cursor() {
    let mut grid = TerminalGrid::with_size(5, 3);
    grid.move_cursor(1, 1);
    grid.put_char_at(2, 3, 'Q');
    assert_eq!(grid.cursor().row, 1);
    assert_eq!(grid.cursor().col, 1);
    assert_eq!(grid.get_cell(2, 3).unwrap().char, 'Q');
    // Out-of-bounds writes are dropped
    grid.put_char_at(9, 9, 'Z');
    assert_eq!(grid.row_to_string(0), "     ");
}

#[test]
fn test_get_row() {
    let mut grid = TerminalGrid::with_size(3, 2);
    grid.put_char('x');
    let row = grid.get_row(0).unwrap();
    assert_eq!(row.len(), 3);
    assert_eq!(row[0].char, 'x');
    assert!(grid.get_row(2).is_none());
}

#[test]
fn test_clear_screen_keep_scrollback() {
    let mut grid = TerminalGrid::with_size(3, 2);
    grid.put_char('x');
    grid.scroll_up(1);
    grid.put_char('y');
    grid.clear_screen_keep_scrollback();
    assert_eq!(grid.scrollback_len(), 1);
    assert_eq!(grid.row_to_string(0), "   ");
}

#[test]
fn test_scroll_down_moves_cursor() {
    let mut grid = TerminalGrid::with_size(3, 4);
    grid.move_cursor(1, 0);
    for c in "top".chars() {
        grid.put_char(c);
    }
    grid.move_cursor(1, 2);
    grid.scroll_down(2);
    // Content moved down with the cursor
    assert_eq!(grid.row_to_string(3), "top");
    assert_eq!(grid.cursor().row, 3);
    assert_eq!(grid.cursor().col, 2);
}
