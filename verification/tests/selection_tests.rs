//! Tests for mouse selection: region normalization, containment, and text
//! extraction with and without whitespace trimming.

use warp_foss::terminal::grid::Cell;
use warp_foss::terminal::grid::Cursor;
use warp_foss::ui::selection::MouseMode;
use warp_foss::ui::selection::SelectionRegion;
use warp_foss::ui::selection::SelectionState;
use warp_foss::ui::selection::extract_selected_text;
use warp_foss::ui::selection::extract_selected_text_preserve_ws;

fn create_test_grid() -> Vec<Vec<Cell>> {
    vec![
        vec![
            Cell::new('H'),
            Cell::new('e'),
            Cell::new('l'),
            Cell::new('l'),
            Cell::new('o'),
            Cell::new(' '),
            Cell::new('W'),
            Cell::new('o'),
            Cell::new('r'),
            Cell::new('l'),
            Cell::new('d'),
        ],
        vec![
            Cell::new('T'),
            Cell::new('e'),
            Cell::new('s'),
            Cell::new('t'),
            Cell::new(' '),
            Cell::new('L'),
            Cell::new('i'),
            Cell::new('n'),
            Cell::new('e'),
            Cell::new(' '),
            Cell::new('2'),
        ],
        vec![
            Cell::new('A'),
            Cell::new('n'),
            Cell::new('o'),
            Cell::new('t'),
            Cell::new('h'),
            Cell::new('e'),
            Cell::new('r'),
        ],
    ]
}

#[test]
fn test_selection_region_creation() {
    let start = Cursor::new(0, 0);
    let end = Cursor::new(1, 5);
    let region = SelectionRegion::new(start, end);

    assert_eq!(region.start, start);
    assert_eq!(region.end, end);
    assert!(!region.is_empty());
}

#[test]
fn test_selection_region_normalization() {
    // Create with end before start
    let start = Cursor::new(1, 5);
    let end = Cursor::new(0, 0);
    let region = SelectionRegion::new(start, end);

    // Should be normalized
    assert_eq!(region.start, Cursor::new(0, 0));
    assert_eq!(region.end, Cursor::new(1, 5));
}

#[test]
fn test_selection_region_same_position() {
    let pos = Cursor::new(5, 10);
    let region = SelectionRegion::new(pos, pos);

    // A single-cell selection is active (explicitly created)
    assert!(!region.is_empty());
    assert_eq!(region.start, pos);
    assert_eq!(region.end, pos);
}

#[test]
fn test_selection_region_contains() {
    let region = SelectionRegion::new(Cursor::new(1, 3), Cursor::new(3, 7));

    // Inside selection
    assert!(region.contains(Cursor::new(2, 5)));
    assert!(region.contains(Cursor::new(1, 4)));
    assert!(region.contains(Cursor::new(3, 6)));

    // Outside selection
    assert!(!region.contains(Cursor::new(0, 5)));
    assert!(!region.contains(Cursor::new(4, 5)));
    assert!(!region.contains(Cursor::new(1, 2)));
    assert!(!region.contains(Cursor::new(3, 8)));
}

#[test]
fn test_selection_region_cols_for_row() {
    let region = SelectionRegion::new(Cursor::new(1, 3), Cursor::new(3, 7));

    // Middle row - full range
    assert_eq!(region.cols_for_row(2), Some((0, usize::MAX)));

    // Start row - partial range
    assert_eq!(region.cols_for_row(1), Some((3, usize::MAX)));

    // End row - partial range
    assert_eq!(region.cols_for_row(3), Some((0, 7)));

    // Outside rows
    assert_eq!(region.cols_for_row(0), None);
    assert_eq!(region.cols_for_row(4), None);
}

#[test]
fn test_extract_selected_text_single_char() {
    let grid = create_test_grid();
    let selection = SelectionRegion::new(Cursor::new(0, 0), Cursor::new(0, 0));

    let text = extract_selected_text(&grid, &selection);
    assert_eq!(text, "H");
}

#[test]
fn test_extract_selected_text_single_line() {
    let grid = create_test_grid();
    let selection = SelectionRegion::new(Cursor::new(0, 0), Cursor::new(0, 4));

    let text = extract_selected_text(&grid, &selection);
    assert_eq!(text, "Hello");
}

#[test]
fn test_extract_selected_text_multiple_lines() {
    let grid = create_test_grid();
    let selection = SelectionRegion::new(Cursor::new(0, 0), Cursor::new(1, 4));

    let text = extract_selected_text(&grid, &selection);
    assert_eq!(text, "Hello\nTest");
}

#[test]
fn test_extract_selected_text_trailing_whitespace() {
    let grid = create_test_grid();
    let selection = SelectionRegion::new(Cursor::new(0, 5), Cursor::new(0, 11));

    let text = extract_selected_text(&grid, &selection);
    // Should trim trailing whitespace
    assert_eq!(text, "World");
}

#[test]
fn test_extract_selected_text_preserve_ws() {
    let grid = create_test_grid();
    let selection = SelectionRegion::new(Cursor::new(0, 5), Cursor::new(0, 11));

    let text = extract_selected_text_preserve_ws(&grid, &selection);
    // Should preserve whitespace
    assert_eq!(text, " World");
}

#[test]
fn test_extract_selected_text_empty_selection() {
    let grid = create_test_grid();
    let selection = SelectionRegion::empty();

    let text = extract_selected_text(&grid, &selection);
    assert_eq!(text, "");
}

#[test]
fn test_mouse_mode() {
    let mut mode = MouseMode::default();
    assert!(!mode.is_enabled());

    mode.enable_button_tracking();
    assert!(mode.is_enabled());
    assert!(mode.button_tracking);

    mode.disable_button_tracking();
    assert!(!mode.is_enabled());

    mode.enable_button_press_only();
    assert!(mode.is_enabled());
    assert!(mode.button_press_only);

    mode.disable_all();
    assert!(!mode.is_enabled());
}

#[test]
fn test_selection_state() {
    let mut state = SelectionState::new();
    assert!(!state.has_selection());
    assert!(!state.selecting);

    state.start_selection(Cursor::new(2, 3));
    assert!(state.selecting);
    assert!(!state.has_selection()); // Single char is still considered empty

    state.update_selection(Cursor::new(5, 10));
    assert!(state.selecting);
    assert!(state.has_selection());

    state.end_selection();
    assert!(!state.selecting);
    assert!(state.has_selection());

    state.clear();
    assert!(!state.selecting);
    assert!(!state.has_selection());
}

#[test]
fn test_update_selection_backwards() {
    // Dragging above the anchor swaps start and end.
    let mut state = SelectionState::new();
    state.start_selection(Cursor::new(5, 5));
    state.update_selection(Cursor::new(2, 1));
    assert_eq!(state.region.start, Cursor::new(2, 1));
    assert_eq!(state.region.end, Cursor::new(5, 5));
}

#[test]
fn test_extract_multiline_column_band() {
    // Across rows, the smaller and larger corner columns bound every row.
    let grid = create_test_grid();
    let selection = SelectionRegion::new(Cursor::new(0, 6), Cursor::new(1, 1));
    let text = extract_selected_text_preserve_ws(&grid, &selection);
    // Columns 1..=6 of both rows
    assert_eq!(text, "ello W\nest Li");
}

#[test]
fn test_extract_selection_past_grid_end() {
    // A selection reaching below the last row stops at the grid's end.
    let grid = create_test_grid();
    let selection = SelectionRegion::new(Cursor::new(2, 0), Cursor::new(9, 3));
    let text = extract_selected_text_preserve_ws(&grid, &selection);
    assert_eq!(text, "Anot");
}
