//! Tests for panes and the layout tree: splitting, closing, focus cycling,
//! the pane cap, and bounds calculation.

use warp_foss::ui::layout::LayoutError;
use warp_foss::ui::layout::LayoutNode;
use warp_foss::ui::layout::LayoutTree;
use warp_foss::ui::layout::Pane;
use warp_foss::ui::layout::Rect;
use warp_foss::ui::layout::SplitDirection;

fn test_pane(id: u64) -> Pane {
    Pane::new(id, 80, 24, Rect::new(0, 0, 800, 600))
}

#[test]
fn test_rect_creation() {
    let rect = Rect::new(10, 20, 100, 200);
    assert_eq!(rect.x, 10);
    assert_eq!(rect.y, 20);
    assert_eq!(rect.width, 100);
    assert_eq!(rect.height, 200);
}

#[test]
fn test_rect_contains() {
    let rect = Rect::new(10, 20, 100, 200);
    assert!(rect.contains(50, 100)); // Inside
    assert!(rect.contains(10, 20)); // On edge
    assert!(!rect.contains(200, 100)); // Outside X
    assert!(!rect.contains(50, 300)); // Outside Y
}

#[test]
fn test_pane_creation() {
    let pane = test_pane(7);
    assert_eq!(pane.id, 7);
    assert_eq!(pane.title, "Terminal");
}

#[test]
fn test_pane_terminal_size() {
    let pane = test_pane(1);
    let (cols, rows) = pane.terminal_size(10, 20);
    assert_eq!(cols, 80);
    assert_eq!(rows, 30);
}

#[test]
fn test_layout_tree_creation() {
    let pane = test_pane(1);
    let pane_id = pane.id;
    let tree = LayoutTree::new(pane);

    assert_eq!(tree.focused_pane_id(), pane_id);
    assert_eq!(tree.pane_count(), 1);
}

#[test]
fn test_layout_tree_focused_pane() {
    let pane = test_pane(1);
    let pane_id = pane.id;
    let tree = LayoutTree::new(pane);

    let focused = tree.focused_pane();
    assert!(focused.is_some());
    assert_eq!(focused.unwrap().id, pane_id);
}

#[test]
fn test_layout_node_pane_count() {
    let node = LayoutNode::HorizontalSplit {
        first: Box::new(LayoutNode::Pane(1)),
        second: Box::new(LayoutNode::Pane(2)),
        first_ratio: 500,
    };

    assert_eq!(node.pane_count(), 2);
}

#[test]
fn test_layout_tree_split_horizontal() {
    let mut tree = LayoutTree::new(test_pane(1));
    tree.split_focused(SplitDirection::Horizontal, test_pane(2)).unwrap();

    assert_eq!(tree.pane_count(), 2);
    assert_eq!(tree.focused_pane_id(), 2);
    assert!(tree.get_pane(1).is_some());
    assert!(tree.get_pane(2).is_some());
}

#[test]
fn test_layout_tree_split_vertical() {
    let mut tree = LayoutTree::new(test_pane(1));
    tree.split_focused(SplitDirection::Vertical, test_pane(2)).unwrap();

    assert_eq!(tree.pane_count(), 2);
    assert_eq!(tree.root().pane_count(), 2);
}

#[test]
fn test_layout_tree_focus_navigation() {
    let mut tree = LayoutTree::new(test_pane(1));
    tree.split_focused(SplitDirection::Horizontal, test_pane(2)).unwrap();
    tree.set_focus(1);
    tree.split_focused(SplitDirection::Vertical, test_pane(3)).unwrap();

    // Tree order: 1, 3, 2
    tree.set_focus(1);
    tree.focus_next();
    assert_eq!(tree.focused_pane_id(), 3);

    tree.focus_next();
    assert_eq!(tree.focused_pane_id(), 2);

    tree.focus_next();
    assert_eq!(tree.focused_pane_id(), 1);

    tree.focus_prev();
    assert_eq!(tree.focused_pane_id(), 2);
}

#[test]
fn test_layout_tree_calculate_layout() {
    let mut tree = LayoutTree::new(test_pane(1));
    tree.split_focused(SplitDirection::Horizontal, test_pane(2)).unwrap();

    let total_bounds = Rect::new(0, 0, 1000, 800);
    tree.calculate_layout(total_bounds);

    // Check that panes have bounds set
    let pane_ids = tree.all_pane_ids();
    for id in pane_ids {
        let pane = tree.get_pane(id).unwrap();
        assert!(pane.bounds.width > 0);
        assert!(pane.bounds.height > 0);
    }
    // An even split of 1000 gives 500 each, side by side
    assert_eq!(tree.get_pane(1).unwrap().bounds, Rect::new(0, 0, 500, 800));
    assert_eq!(tree.get_pane(2).unwrap().bounds, Rect::new(500, 0, 500, 800));
}

#[test]
fn test_layout_tree_max_panes() {
    let mut tree = LayoutTree::new(test_pane(1));

    // Add 7 more panes (total 8)
    for id in 2..=8 {
        tree.split_focused(SplitDirection::Horizontal, test_pane(id)).unwrap();
    }

    assert_eq!(tree.pane_count(), 8);

    // Try to add 9th pane (should fail)
    let result = tree.split_focused(SplitDirection::Horizontal, test_pane(9));
    assert!(result.is_err());
    assert_eq!(result, Err(LayoutError::PaneLimitReached));
    assert_eq!(tree.pane_count(), 8);
}

#[test]
fn test_layout_node_find_pane() {
    let node = LayoutNode::HorizontalSplit {
        first: Box::new(LayoutNode::Pane(1)),
        second: Box::new(LayoutNode::Pane(2)),
        first_ratio: 500,
    };

    assert!(node.contains_pane(1));
    assert!(node.contains_pane(2));
    assert!(!node.contains_pane(99));
}

#[test]
fn test_layout_node_collect_pane_ids() {
    let node = LayoutNode::HorizontalSplit {
        first: Box::new(LayoutNode::Pane(1)),
        second: Box::new(LayoutNode::Pane(2)),
        first_ratio: 500,
    };

    let ids = node.collect_pane_ids();
    assert_eq!(ids.len(), 2);
    assert!(ids.contains(&1));
    assert!(ids.contains(&2));
}

// ===== Lifecycle scenarios =====

#[test]
fn test_split_close_lifecycle() {
    // Start with one pane; split -> two panes with the new one focused;
    // close -> one pane with focus on the survivor; closing the last
    // pane fails and the count stays 1.
    let mut tree = LayoutTree::new(test_pane(1));
    assert_eq!(tree.pane_count(), 1);

    tree.split_focused(SplitDirection::Horizontal, test_pane(2)).unwrap();
    assert_eq!(tree.pane_count(), 2);
    assert_eq!(tree.focused_pane_id(), 2);

    tree.close_focused().unwrap();
    assert_eq!(tree.pane_count(), 1);
    assert_eq!(tree.focused_pane_id(), 1);

    let result = tree.close_focused();
    assert_eq!(result, Err(LayoutError::CannotCloseLastPane));
    assert_eq!(tree.pane_count(), 1);
}

#[test]
fn test_pane_cap() {
    // Splitting from 1 pane up to 8 succeeds each time; the 9th attempt
    // fails and the count stays 8.
    let mut tree = LayoutTree::new(test_pane(1));
    for id in 2..=8 {
        assert!(tree.split_focused(SplitDirection::Vertical, test_pane(id)).is_ok());
        assert_eq!(tree.pane_count(), id as usize);
    }
    let result = tree.split_focused(SplitDirection::Vertical, test_pane(9));
    assert_eq!(result, Err(LayoutError::PaneLimitReached));
    assert_eq!(tree.pane_count(), 8);
}

#[test]
fn test_duplicate_pane_id_rejected() {
    let mut tree = LayoutTree::new(test_pane(1));
    let result = tree.split_focused(SplitDirection::Horizontal, test_pane(1));
    assert_eq!(result, Err(LayoutError::DuplicatePaneId));
    assert_eq!(tree.pane_count(), 1);
}

#[test]
fn test_close_collapses_split() {
    let mut tree = LayoutTree::new(test_pane(1));
    tree.split_focused(SplitDirection::Horizontal, test_pane(2)).unwrap();
    tree.split_focused(SplitDirection::Vertical, test_pane(3)).unwrap();
    assert_eq!(tree.pane_count(), 3);

    // Closing pane 3 collapses its split; the survivors keep tree order
    tree.close_focused().unwrap();
    assert_eq!(tree.all_pane_ids(), vec![1, 2]);
    assert_eq!(tree.focused_pane_id(), 1);
}

#[test]
fn test_resize_single_pane_fails() {
    let mut tree = LayoutTree::new(test_pane(1));
    let result = tree.resize_focused(SplitDirection::Horizontal, 100);
    assert_eq!(result, Err(LayoutError::NoAdjacentPane));
}

#[test]
fn test_resize_adjusts_ratio() {
    let mut tree = LayoutTree::new(test_pane(1));
    tree.split_focused(SplitDirection::Horizontal, test_pane(2)).unwrap();
    // Focused pane 2 is the second child: growing it shrinks the first
    tree.resize_focused(SplitDirection::Horizontal, 100).unwrap();
    tree.calculate_layout(Rect::new(0, 0, 1000, 800));
    assert_eq!(tree.get_pane(1).unwrap().bounds.width, 400);
    assert_eq!(tree.get_pane(2).unwrap().bounds.width, 600);
    // A resize in the other direction finds no matching split: no change
    tree.resize_focused(SplitDirection::Vertical, 100).unwrap();
    tree.calculate_layout(Rect::new(0, 0, 1000, 800));
    assert_eq!(tree.get_pane(1).unwrap().bounds.width, 400);
}

#[test]
fn test_resize_ratio_clamped() {
    let mut tree = LayoutTree::new(test_pane(1));
    tree.split_focused(SplitDirection::Horizontal, test_pane(2)).unwrap();
    tree.resize_focused(SplitDirection::Horizontal, 2000).unwrap();
    tree.calculate_layout(Rect::new(0, 0, 1000, 800));
    // The first child is squeezed no further than the minimum share
    assert_eq!(tree.get_pane(1).unwrap().bounds.width, 100);
    assert_eq!(tree.get_pane(2).unwrap().bounds.width, 900);
}

#[test]
fn test_feed_pane_drives_grid() {
    let mut tree = LayoutTree::new(test_pane(1));
    assert!(tree.feed_pane(1, b"hi\x1B[31m!"));
    let pane = tree.get_pane(1).unwrap();
    assert_eq!(pane.grid.get_cell(0, 0).unwrap().char, 'h');
    assert_eq!(pane.grid.get_cell(0, 1).unwrap().char, 'i');
    assert_eq!(pane.grid.get_cell(0, 2).unwrap().char, '!');
    // The pen color lives in the pane's parser state
    assert_eq!(
        pane.parser.foreground_color(),
        warp_foss::terminal::parser::Color::Indexed(1)
    );
    // Feeding an unknown pane reports failure
    assert!(!tree.feed_pane(42, b"x"));
}

#[test]
fn test_resize_pane_resizes_grid() {
    let mut tree = LayoutTree::new(test_pane(1));
    assert!(tree.resize_pane(1, 10, 4));
    let pane = tree.get_pane(1).unwrap();
    assert_eq!(pane.grid.cols(), 10);
    assert_eq!(pane.grid.rows(), 4);
}

#[test]
fn test_set_focus() {
    let mut tree = LayoutTree::new(test_pane(1));
    tree.split_focused(SplitDirection::Horizontal, test_pane(2)).unwrap();
    assert!(tree.set_focus(1));
    assert_eq!(tree.focused_pane_id(), 1);
    assert!(!tree.set_focus(42));
    assert_eq!(tree.focused_pane_id(), 1);
}

#[test]
fn test_node_kind_probes() {
    let leaf = LayoutNode::Pane(5);
    assert!(leaf.is_pane());
    assert!(!leaf.is_split());
    assert_eq!(leaf.pane_id(), Some(5));
    let split = LayoutNode::VerticalSplit {
        first: Box::new(LayoutNode::Pane(1)),
        second: Box::new(LayoutNode::Pane(2)),
        first_ratio: 500,
    };
    assert!(split.is_split());
    assert_eq!(split.pane_id(), None);
}
