//! Layout management for split panes
//!
//! Provides a tree-based layout system for managing multiple terminal panes.
//! The panes live in an arena ordered by tree traversal; the tree itself
//! holds only pane identifiers, so structural edits never move a pane's
//! grid or parser.

use vstd::prelude::*;

use crate::terminal::grid::TerminalGrid;
use crate::terminal::parser::TerminalParser;

verus! {

/// Rectangle representing a pane's bounds
#[derive(Debug, Clone, Copy, PartialEq, Eq, Structural)]
pub struct Rect {
    pub x: u32,
    pub y: u32,
    pub width: u32,
    pub height: u32,
}

impl Rect {
    /// Create a new rectangle
    pub fn new(x: u32, y: u32, width: u32, height: u32) -> (r: Self)
        ensures
            r == (Rect { x, y, width, height }),
    {
        Self { x, y, width, height }
    }

    /// Check if a point is inside this rectangle
    pub fn contains(&self, x: u32, y: u32) -> (r: bool)
        ensures
            r == (self.x <= x < self.x + self.width && self.y <= y < self.y + self.height),
    {
        x >= self.x && x - self.x < self.width && y >= self.y && y - self.y < self.height
    }
}

/// Direction for splitting panes
#[derive(Debug, Clone, Copy, PartialEq, Eq, Structural)]
pub enum SplitDirection {
    /// Split horizontally (side by side)
    Horizontal,
    /// Split vertically (stacked)
    Vertical,
}

/// Errors from structural layout operations; all are recoverable by the
/// caller.
#[derive(Debug, Clone, Copy, PartialEq, Eq, Structural)]
pub enum LayoutError {
    /// The hard cap on simultaneous panes was reached.
    PaneLimitReached,
    /// The last remaining pane cannot be closed.
    CannotCloseLastPane,
    /// A pane with this identifier is already in the tree.
    DuplicatePaneId,
    /// A lone pane has no sibling to trade space with.
    NoAdjacentPane,
}

/// The hard cap on simultaneous panes.
pub const MAX_PANES: usize = 8;

/// Ratios are expressed in thousandths of the parent extent.
pub const RATIO_UNIT: u32 = 1000;

/// The smallest share a split child may be squeezed to.
pub const RATIO_MIN: u32 = 100;

/// The largest share a split child may grow to.
pub const RATIO_MAX: u32 = 900;

/// A single terminal pane: one shell session's grid, parser and screen
/// estate. The pseudo-terminal itself is owned by the embedding layer and
/// associated by the pane's identifier.
pub struct Pane {
    /// Unique identifier for this pane
    pub id: u64,
    /// Pane title (can be set dynamically from shell)
    pub title: String,
    /// Terminal grid (screen buffer)
    pub grid: TerminalGrid,
    /// Terminal parser
    pub parser: TerminalParser,
    /// Calculated bounds during layout
    pub bounds: Rect,
}

impl Pane {
    /// A pane is well formed when its grid and parser are.
    pub open spec fn wf(&self) -> bool {
        self.grid.inv() && self.parser.wf()
    }

    /// Create a new pane with the given identifier and dimensions.
    pub fn new(id: u64, cols: usize, rows: usize, bounds: Rect) -> (r: Self)
        requires
            cols * rows <= usize::MAX,
        ensures
            r.wf(),
            r.id == id,
            r.bounds == bounds,
            r.grid@ == crate::terminal::grid::GridView::fresh(cols as nat, rows as nat, 10000),
            r.parser@ == TerminalParser::spec_new(cols as nat, rows as nat),
    {
        Pane {
            id,
            title: "Terminal".to_owned(),
            grid: TerminalGrid::with_size(cols, rows),
            parser: TerminalParser::with_size(cols, rows),
            bounds,
        }
    }

    /// Get the terminal dimensions from the bounds, at least one cell each
    /// way.
    pub fn terminal_size(&self, cell_width: u32, cell_height: u32) -> (r: (usize, usize))
        requires
            cell_width > 0,
            cell_height > 0,
        ensures
            r.0 == (if self.bounds.width as int / cell_width as int > 1 {
                self.bounds.width as int / cell_width as int
            } else {
                1
            }),
            r.1 == (if self.bounds.height as int / cell_height as int > 1 {
                self.bounds.height as int / cell_height as int
            } else {
                1
            }),
    {
        let cols = (self.bounds.width / cell_width) as usize;
        let rows = (self.bounds.height / cell_height) as usize;
        (
            if cols > 1 {
                cols
            } else {
                1
            },
            if rows > 1 {
                rows
            } else {
                1
            },
        )
    }
}

/// A node in the layout tree: a pane leaf (by identifier) or a two-way
/// split. A split never has fewer than two children, so a binary tree
/// represents every reachable shape; `first_ratio` is the first child's
/// share of the parent extent, in thousandths.
pub enum LayoutNode {
    /// Leaf node holding a pane identifier
    Pane(u64),
    /// Horizontal split (panes side by side)
    HorizontalSplit { first: Box<LayoutNode>, second: Box<LayoutNode>, first_ratio: u32 },
    /// Vertical split (panes stacked)
    VerticalSplit { first: Box<LayoutNode>, second: Box<LayoutNode>, first_ratio: u32 },
}

impl LayoutNode {
    /// The pane identifiers of this subtree, in tree order (depth first,
    /// first child before second).
    pub open spec fn ids(self) -> Seq<u64>
        decreases self,
    {
        match self {
            LayoutNode::Pane(id) => seq![id],
            LayoutNode::HorizontalSplit { first, second, .. } => first.ids() + second.ids(),
            LayoutNode::VerticalSplit { first, second, .. } => first.ids() + second.ids(),
        }
    }

    /// Every subtree holds at least one pane, identifiers never repeat, and
    /// every split ratio leaves both children visible.
    pub open spec fn wf(self) -> bool
        decreases self,
    {
        match self {
            LayoutNode::Pane(_) => true,
            LayoutNode::HorizontalSplit { first, second, first_ratio } => {
                &&& first.wf()
                &&& second.wf()
                &&& RATIO_MIN <= first_ratio <= RATIO_MAX
                &&& forall|i: int, j: int|
                    0 <= i < first.ids().len() && 0 <= j < second.ids().len() ==> first.ids()[i]
                        != second.ids()[j]
            },
            LayoutNode::VerticalSplit { first, second, first_ratio } => {
                &&& first.wf()
                &&& second.wf()
                &&& RATIO_MIN <= first_ratio <= RATIO_MAX
                &&& forall|i: int, j: int|
                    0 <= i < first.ids().len() && 0 <= j < second.ids().len() ==> first.ids()[i]
                        != second.ids()[j]
            },
        }
    }

    /// Check if this node is a pane
    pub fn is_pane(&self) -> (r: bool)
        ensures
            r == (self is Pane),
    {
        match self {
            LayoutNode::Pane(_) => true,
            _ => false,
        }
    }

    /// Check if this node is a split
    pub fn is_split(&self) -> (r: bool)
        ensures
            r == !(self is Pane),
    {
        !self.is_pane()
    }

    /// Get the pane ID if this is a pane node
    pub fn pane_id(&self) -> (r: Option<u64>)
        ensures
            self is Pane ==> r == Some(self->Pane_0),
            !(self is Pane) ==> r is None,
    {
        match self {
            LayoutNode::Pane(id) => Some(*id),
            _ => None,
        }
    }

    /// Count the total number of panes in this subtree
    pub fn pane_count(&self) -> (r: usize)
        ensures
            r == self.ids().len(),
    {
        let v = self.collect_pane_ids();
        v.len()
    }

    /// Whether the subtree holds the pane.
    pub fn contains_pane(&self, id: u64) -> (r: bool)
        ensures
            r == self.ids().contains(id),
        decreases *self,
    {
        match self {
            LayoutNode::Pane(p) => {
                let hit = *p == id;
                proof {
                    assert(self.ids() =~= seq![*p]);
                    if hit {
                        assert(self.ids()[0] == id);
                    }
                    if self.ids().contains(id) {
                        let i = choose|i: int|
                            0 <= i < self.ids().len() && self.ids()[i] == id;
                        assert(self.ids()[0] == id);
                    }
                }
                hit
            },
            LayoutNode::HorizontalSplit { first, second, .. } => {
                let r = first.contains_pane(id) || second.contains_pane(id);
                proof {
                    lemma_concat_contains(first.ids(), second.ids(), id);
                }
                r
            },
            LayoutNode::VerticalSplit { first, second, .. } => {
                let r = first.contains_pane(id) || second.contains_pane(id);
                proof {
                    lemma_concat_contains(first.ids(), second.ids(), id);
                }
                r
            },
        }
    }

    /// Collect all pane IDs in this subtree, in tree order.
    pub fn collect_pane_ids(&self) -> (r: Vec<u64>)
        ensures
            r@ == self.ids(),
        decreases *self,
    {
        match self {
            LayoutNode::Pane(id) => {
                let mut v = Vec::new();
                v.push(*id);
                proof {
                    assert(v@ =~= self.ids());
                }
                v
            },
            LayoutNode::HorizontalSplit { first, second, .. } => {
                let mut v = first.collect_pane_ids();
                let mut w = second.collect_pane_ids();
                v.append(&mut w);
                proof {
                    assert(v@ =~= self.ids());
                }
                v
            },
            LayoutNode::VerticalSplit { first, second, .. } => {
                let mut v = first.collect_pane_ids();
                let mut w = second.collect_pane_ids();
                v.append(&mut w);
                proof {
                    assert(v@ =~= self.ids());
                }
                v
            },
        }
    }
}

/// Membership in a concatenation is membership in either part.
proof fn lemma_concat_contains(a: Seq<u64>, b: Seq<u64>, x: u64)
    ensures
        (a + b).contains(x) == (a.contains(x) || b.contains(x)),
{
    if a.contains(x) {
        let i = choose|i: int| 0 <= i < a.len() && a[i] == x;
        assert((a + b)[i] == x);
    }
    if b.contains(x) {
        let i = choose|i: int| 0 <= i < b.len() && b[i] == x;
        assert((a + b)[a.len() + i] == x);
    }
    if (a + b).contains(x) {
        let i = choose|i: int| 0 <= i < (a + b).len() && (a + b)[i] == x;
        if i < a.len() {
            assert(a[i] == x);
        } else {
            assert(b[i - a.len()] == x);
        }
    }
}

/// `s` with `fresh` inserted right after the first occurrence of `target`;
/// unchanged when `target` does not occur.
pub open spec fn insert_after(s: Seq<u64>, target: u64, fresh: u64) -> Seq<u64>
    decreases s.len(),
{
    if s.len() == 0 {
        s
    } else if s[0] == target {
        seq![s[0], fresh] + s.skip(1)
    } else {
        seq![s[0]] + insert_after(s.skip(1), target, fresh)
    }
}

/// `s` with the first occurrence of `target` removed; unchanged when it
/// does not occur.
pub open spec fn remove_first(s: Seq<u64>, target: u64) -> Seq<u64>
    decreases s.len(),
{
    if s.len() == 0 {
        s
    } else if s[0] == target {
        s.skip(1)
    } else {
        seq![s[0]] + remove_first(s.skip(1), target)
    }
}

/// The index of the first occurrence of `target`, or the length when it
/// does not occur.
pub open spec fn first_index(s: Seq<u64>, target: u64) -> int
    decreases s.len(),
{
    if s.len() == 0 {
        0
    } else if s[0] == target {
        0
    } else {
        1 + first_index(s.skip(1), target)
    }
}

proof fn lemma_insert_after_left(a: Seq<u64>, b: Seq<u64>, t: u64, x: u64)
    requires
        a.contains(t),
    ensures
        insert_after(a + b, t, x) == insert_after(a, t, x) + b,
    decreases a.len(),
{
    assert(a.len() > 0);
    assert((a + b)[0] == a[0]);
    if a[0] == t {
        assert((a + b).skip(1) =~= a.skip(1) + b);
        assert(insert_after(a + b, t, x) =~= insert_after(a, t, x) + b);
    } else {
        let i = choose|i: int| 0 <= i < a.len() && a[i] == t;
        assert(a.skip(1)[i - 1] == t);
        lemma_insert_after_left(a.skip(1), b, t, x);
        assert((a + b).skip(1) =~= a.skip(1) + b);
        assert(insert_after(a + b, t, x) =~= insert_after(a, t, x) + b);
    }
}

proof fn lemma_insert_after_right(a: Seq<u64>, b: Seq<u64>, t: u64, x: u64)
    requires
        !a.contains(t),
    ensures
        insert_after(a + b, t, x) == a + insert_after(b, t, x),
    decreases a.len(),
{
    if a.len() == 0 {
        assert(a + b =~= b);
        assert(a + insert_after(b, t, x) =~= insert_after(b, t, x));
    } else {
        assert(a[0] != t);
        assert((a + b)[0] == a[0]);
        assert(!a.skip(1).contains(t)) by {
            if a.skip(1).contains(t) {
                let i = choose|i: int| 0 <= i < a.skip(1).len() && a.skip(1)[i] == t;
                assert(a[i + 1] == t);
            }
        }
        lemma_insert_after_right(a.skip(1), b, t, x);
        assert((a + b).skip(1) =~= a.skip(1) + b);
        assert(insert_after(a + b, t, x) =~= a + insert_after(b, t, x));
    }
}

/// Inserting after the first occurrence at index `k` is a plain `insert` at
/// `k + 1`.
proof fn lemma_insert_after_at(s: Seq<u64>, t: u64, x: u64, k: int)
    requires
        0 <= k < s.len(),
        s[k] == t,
        forall|i: int| 0 <= i < k ==> s[i] != t,
    ensures
        insert_after(s, t, x) == s.insert(k + 1, x),
    decreases k,
{
    if k == 0 {
        assert(insert_after(s, t, x) =~= s.insert(1, x));
    } else {
        assert(s[0] != t);
        assert(s.skip(1)[k - 1] == t);
        lemma_insert_after_at(s.skip(1), t, x, k - 1);
        assert(insert_after(s, t, x) =~= s.insert(k + 1, x));
    }
}

/// What `insert_after` holds: everything of `s`, plus `x` when `t` occurs.
proof fn lemma_insert_after_contains(s: Seq<u64>, t: u64, x: u64, y: u64)
    requires
        s.contains(t),
    ensures
        insert_after(s, t, x).contains(y) == (s.contains(y) || y == x),
        insert_after(s, t, x).len() == s.len() + 1,
    decreases s.len(),
{
    let r = insert_after(s, t, x);
    if s[0] == t {
        assert(r =~= seq![s[0], x] + s.skip(1));
        if s.contains(y) {
            let i = choose|i: int| 0 <= i < s.len() && s[i] == y;
            if i == 0 {
                assert(r[0] == y);
            } else {
                assert(r[i + 1] == y);
            }
        }
        if y == x {
            assert(r[1] == y);
        }
        if r.contains(y) {
            let i = choose|i: int| 0 <= i < r.len() && r[i] == y;
            if i == 0 {
                assert(s[0] == y);
            } else if i == 1 {
            } else {
                assert(s[i - 1] == y);
            }
        }
    } else {
        assert(s.skip(1).contains(t)) by {
            let i = choose|i: int| 0 <= i < s.len() && s[i] == t;
            assert(s.skip(1)[i - 1] == t);
        }
        lemma_insert_after_contains(s.skip(1), t, x, y);
        assert(r =~= seq![s[0]] + insert_after(s.skip(1), t, x));
        if s.contains(y) {
            let i = choose|i: int| 0 <= i < s.len() && s[i] == y;
            if i == 0 {
                assert(r[0] == y);
            } else {
                assert(s.skip(1)[i - 1] == y);
                let j = choose|j: int|
                    0 <= j < insert_after(s.skip(1), t, x).len() && insert_after(s.skip(1), t, x)[j]
                        == y;
                assert(r[j + 1] == y);
            }
        }
        if y == x {
            let j = choose|j: int|
                0 <= j < insert_after(s.skip(1), t, x).len() && insert_after(s.skip(1), t, x)[j]
                    == y;
            assert(r[j + 1] == y);
        }
        if r.contains(y) {
            let i = choose|i: int| 0 <= i < r.len() && r[i] == y;
            if i == 0 {
                assert(s[0] == y);
            } else {
                assert(insert_after(s.skip(1), t, x)[i - 1] == y);
                if s.skip(1).contains(y) {
                    let j = choose|j: int| 0 <= j < s.skip(1).len() && s.skip(1)[j] == y;
                    assert(s[j + 1] == y);
                }
            }
        }
    }
}

proof fn lemma_remove_first_left(a: Seq<u64>, b: Seq<u64>, t: u64)
    requires
        a.contains(t),
    ensures
        remove_first(a + b, t) == remove_first(a, t) + b,
    decreases a.len(),
{
    assert(a.len() > 0);
    assert((a + b)[0] == a[0]);
    if a[0] == t {
        assert((a + b).skip(1) =~= a.skip(1) + b);
    } else {
        let i = choose|i: int| 0 <= i < a.len() && a[i] == t;
        assert(a.skip(1)[i - 1] == t);
        lemma_remove_first_left(a.skip(1), b, t);
        assert((a + b).skip(1) =~= a.skip(1) + b);
        assert(remove_first(a + b, t) =~= remove_first(a, t) + b);
    }
}

proof fn lemma_remove_first_right(a: Seq<u64>, b: Seq<u64>, t: u64)
    requires
        !a.contains(t),
    ensures
        remove_first(a + b, t) == a + remove_first(b, t),
    decreases a.len(),
{
    if a.len() == 0 {
        assert(a + b =~= b);
        assert(a + remove_first(b, t) =~= remove_first(b, t));
    } else {
        assert(a[0] != t);
        assert((a + b)[0] == a[0]);
        assert(!a.skip(1).contains(t)) by {
            if a.skip(1).contains(t) {
                let i = choose|i: int| 0 <= i < a.skip(1).len() && a.skip(1)[i] == t;
                assert(a[i + 1] == t);
            }
        }
        lemma_remove_first_right(a.skip(1), b, t);
        assert((a + b).skip(1) =~= a.skip(1) + b);
        assert(remove_first(a + b, t) =~= a + remove_first(b, t));
    }
}

/// Removing the first occurrence at index `k` is a plain `remove` at `k`.
proof fn lemma_remove_first_at(s: Seq<u64>, t: u64, k: int)
    requires
        0 <= k < s.len(),
        s[k] == t,
        forall|i: int| 0 <= i < k ==> s[i] != t,
    ensures
        remove_first(s, t) == s.remove(k),
    decreases k,
{
    if k == 0 {
        assert(remove_first(s, t) =~= s.remove(0));
    } else {
        assert(s[0] != t);
        assert(s.skip(1)[k - 1] == t);
        lemma_remove_first_at(s.skip(1), t, k - 1);
        assert(remove_first(s, t) =~= s.remove(k));
    }
}

/// What `remove_first` holds: a sub-multiset of `s`, one `t` shorter.
proof fn lemma_remove_first_contains(s: Seq<u64>, t: u64, y: u64)
    requires
        s.contains(t),
    ensures
        remove_first(s, t).contains(y) ==> s.contains(y),
        remove_first(s, t).len() == s.len() - 1,
    decreases s.len(),
{
    let r = remove_first(s, t);
    if s[0] == t {
        if r.contains(y) {
            let i = choose|i: int| 0 <= i < r.len() && r[i] == y;
            assert(s[i + 1] == y);
        }
    } else {
        assert(s.skip(1).contains(t)) by {
            let i = choose|i: int| 0 <= i < s.len() && s[i] == t;
            assert(s.skip(1)[i - 1] == t);
        }
        lemma_remove_first_contains(s.skip(1), t, y);
        assert(r =~= seq![s[0]] + remove_first(s.skip(1), t));
        if r.contains(y) {
            let i = choose|i: int| 0 <= i < r.len() && r[i] == y;
            if i == 0 {
                assert(s[0] == y);
            } else {
                assert(remove_first(s.skip(1), t)[i - 1] == y);
                assert(s.skip(1).contains(y));
                let j = choose|j: int| 0 <= j < s.skip(1).len() && s.skip(1)[j] == y;
                assert(s[j + 1] == y);
            }
        }
    }
}

/// The children of a rebuilt split stay disjoint when one of them gains a
/// fresh identifier by `insert_after`.
proof fn lemma_disjoint_after_insert(a: Seq<u64>, b: Seq<u64>, a2: Seq<u64>, t: u64, x: u64)
    requires
        a.contains(t),
        a2 == insert_after(a, t, x),
        !b.contains(x),
        forall|i: int, j: int| 0 <= i < a.len() && 0 <= j < b.len() ==> a[i] != b[j],
    ensures
        forall|i: int, j: int| 0 <= i < a2.len() && 0 <= j < b.len() ==> a2[i] != b[j],
{
    assert forall|i: int, j: int| 0 <= i < a2.len() && 0 <= j < b.len() implies a2[i] != b[j] by {
        let y = a2[i];
        assert(a2.contains(y));
        lemma_insert_after_contains(a, t, x, y);
        if a.contains(y) {
            let k = choose|k: int| 0 <= k < a.len() && a[k] == y;
            assert(a[k] != b[j]);
        } else {
            assert(y == x);
            if b[j] == y {
                assert(b.contains(x));
            }
        }
    }
}

/// The children of a rebuilt split stay disjoint when one of them loses an
/// identifier by `remove_first`.
proof fn lemma_disjoint_after_remove(a: Seq<u64>, b: Seq<u64>, a2: Seq<u64>, t: u64)
    requires
        a.contains(t),
        a2 == remove_first(a, t),
        forall|i: int, j: int| 0 <= i < a.len() && 0 <= j < b.len() ==> a[i] != b[j],
    ensures
        forall|i: int, j: int| 0 <= i < a2.len() && 0 <= j < b.len() ==> a2[i] != b[j],
{
    assert forall|i: int, j: int| 0 <= i < a2.len() && 0 <= j < b.len() implies a2[i] != b[j] by {
        let y = a2[i];
        assert(a2.contains(y));
        lemma_remove_first_contains(a, t, y);
        let k = choose|k: int| 0 <= k < a.len() && a[k] == y;
        assert(a[k] != b[j]);
    }
}

/// The tree with the leaf holding `target` replaced by a half-and-half
/// split of `target` and the fresh pane `new_id`, in the given direction.
pub open spec fn spec_split_leaf(
    node: LayoutNode,
    target: u64,
    new_id: u64,
    direction: SplitDirection,
) -> LayoutNode
    decreases node,
{
    match node {
        LayoutNode::Pane(id) => match direction {
            SplitDirection::Horizontal => LayoutNode::HorizontalSplit {
                first: Box::new(LayoutNode::Pane(id)),
                second: Box::new(LayoutNode::Pane(new_id)),
                first_ratio: 500u32,
            },
            SplitDirection::Vertical => LayoutNode::VerticalSplit {
                first: Box::new(LayoutNode::Pane(id)),
                second: Box::new(LayoutNode::Pane(new_id)),
                first_ratio: 500u32,
            },
        },
        LayoutNode::HorizontalSplit { first, second, first_ratio } => if first.ids().contains(
            target,
        ) {
            LayoutNode::HorizontalSplit {
                first: Box::new(spec_split_leaf(*first, target, new_id, direction)),
                second,
                first_ratio,
            }
        } else {
            LayoutNode::HorizontalSplit {
                first,
                second: Box::new(spec_split_leaf(*second, target, new_id, direction)),
                first_ratio,
            }
        },
        LayoutNode::VerticalSplit { first, second, first_ratio } => if first.ids().contains(
            target,
        ) {
            LayoutNode::VerticalSplit {
                first: Box::new(spec_split_leaf(*first, target, new_id, direction)),
                second,
                first_ratio,
            }
        } else {
            LayoutNode::VerticalSplit {
                first,
                second: Box::new(spec_split_leaf(*second, target, new_id, direction)),
                first_ratio,
            }
        },
    }
}

/// The tree with the leaf holding `target` removed: the sibling subtree
/// takes the collapsed parent split's place, and removing the only pane
/// leaves nothing.
pub open spec fn spec_remove_leaf(node: LayoutNode, target: u64) -> Option<LayoutNode>
    decreases node,
{
    match node {
        LayoutNode::Pane(_) => None,
        LayoutNode::HorizontalSplit { first, second, first_ratio } => if first.ids().contains(
            target,
        ) {
            match spec_remove_leaf(*first, target) {
                Some(f2) => Some(
                    LayoutNode::HorizontalSplit { first: Box::new(f2), second, first_ratio },
                ),
                None => Some(*second),
            }
        } else {
            match spec_remove_leaf(*second, target) {
                Some(s2) => Some(
                    LayoutNode::HorizontalSplit { first, second: Box::new(s2), first_ratio },
                ),
                None => Some(*first),
            }
        },
        LayoutNode::VerticalSplit { first, second, first_ratio } => if first.ids().contains(
            target,
        ) {
            match spec_remove_leaf(*first, target) {
                Some(f2) => Some(
                    LayoutNode::VerticalSplit { first: Box::new(f2), second, first_ratio },
                ),
                None => Some(*second),
            }
        } else {
            match spec_remove_leaf(*second, target) {
                Some(s2) => Some(
                    LayoutNode::VerticalSplit { first, second: Box::new(s2), first_ratio },
                ),
                None => Some(*first),
            }
        },
    }
}

/// In a well-formed tree no pane identifier repeats.
proof fn lemma_wf_ids_distinct(node: LayoutNode)
    requires
        node.wf(),
    ensures
        forall|i: int, j: int|
            0 <= i < j < node.ids().len() ==> node.ids()[i] != node.ids()[j],
    decreases node,
{
    match node {
        LayoutNode::Pane(id) => {
            assert(node.ids() =~= seq![id]);
        },
        LayoutNode::HorizontalSplit { first, second, .. } => {
            lemma_wf_ids_distinct(*first);
            lemma_wf_ids_distinct(*second);
            let a = first.ids();
            let b = second.ids();
            assert forall|i: int, j: int|
                0 <= i < j < node.ids().len() implies node.ids()[i] != node.ids()[j] by {
                if j < a.len() {
                    assert(a[i] != a[j]);
                } else if i >= a.len() {
                    assert(b[i - a.len()] != b[j - a.len()]);
                } else {
                    assert(a[i] != b[j - a.len()]);
                }
            }
        },
        LayoutNode::VerticalSplit { first, second, .. } => {
            lemma_wf_ids_distinct(*first);
            lemma_wf_ids_distinct(*second);
            let a = first.ids();
            let b = second.ids();
            assert forall|i: int, j: int|
                0 <= i < j < node.ids().len() implies node.ids()[i] != node.ids()[j] by {
                if j < a.len() {
                    assert(a[i] != a[j]);
                } else if i >= a.len() {
                    assert(b[i - a.len()] != b[j - a.len()]);
                } else {
                    assert(a[i] != b[j - a.len()]);
                }
            }
        },
    }
}

/// Replaces the leaf holding `target` with a half-and-half split of `target`
/// and the fresh pane `new_id`.
fn split_leaf(node: LayoutNode, target: u64, new_id: u64, direction: SplitDirection) -> (r:
    LayoutNode)
    requires
        node.wf(),
        node.ids().contains(target),
        !node.ids().contains(new_id),
    ensures
        r.wf(),
        r.ids() == insert_after(node.ids(), target, new_id),
        r == spec_split_leaf(node, target, new_id, direction),
    decreases node,
{
    match node {
        LayoutNode::Pane(id) => {
            proof {
                assert(node.ids() =~= seq![id]);
                let i = choose|i: int| 0 <= i < node.ids().len() && node.ids()[i] == target;
                assert(id == target);
                if id == new_id {
                    assert(node.ids()[0] == new_id);
                }
            }
            proof {
                assert(insert_after(node.ids(), target, new_id) =~= seq![id, new_id]);
                assert(LayoutNode::Pane(id).ids() =~= seq![id]);
                assert(LayoutNode::Pane(new_id).ids() =~= seq![new_id]);
            }
            match direction {
                SplitDirection::Horizontal => {
                    let r = LayoutNode::HorizontalSplit {
                        first: Box::new(LayoutNode::Pane(id)),
                        second: Box::new(LayoutNode::Pane(new_id)),
                        first_ratio: 500,
                    };
                    proof {
                        assert(r.ids() =~= seq![id, new_id]);
                        lemma_fresh_split_wf(id, new_id, r);
                    }
                    r
                },
                SplitDirection::Vertical => {
                    let r = LayoutNode::VerticalSplit {
                        first: Box::new(LayoutNode::Pane(id)),
                        second: Box::new(LayoutNode::Pane(new_id)),
                        first_ratio: 500,
                    };
                    proof {
                        assert(r.ids() =~= seq![id, new_id]);
                        lemma_fresh_split_wf(id, new_id, r);
                    }
                    r
                },
            }
        },
        LayoutNode::HorizontalSplit { first, second, first_ratio } => {
            proof {
                lemma_concat_contains(first.ids(), second.ids(), target);
                lemma_concat_contains(first.ids(), second.ids(), new_id);
            }
            if first.contains_pane(target) {
                proof {
                    lemma_insert_after_left(first.ids(), second.ids(), target, new_id);
                }
                let f2 = split_leaf(*first, target, new_id, direction);
                proof {
                    lemma_disjoint_after_insert(
                        first.ids(),
                        second.ids(),
                        f2.ids(),
                        target,
                        new_id,
                    );
                }
                LayoutNode::HorizontalSplit { first: Box::new(f2), second, first_ratio }
            } else {
                proof {
                    lemma_insert_after_right(first.ids(), second.ids(), target, new_id);
                }
                let s2 = split_leaf(*second, target, new_id, direction);
                proof {
                    lemma_disjoint_after_insert(
                        second.ids(),
                        first.ids(),
                        s2.ids(),
                        target,
                        new_id,
                    );
                    assert(forall|i: int, j: int|
                        0 <= i < first.ids().len() && 0 <= j < s2.ids().len() ==> first.ids()[i]
                            != s2.ids()[j]);
                }
                LayoutNode::HorizontalSplit { first, second: Box::new(s2), first_ratio }
            }
        },
        LayoutNode::VerticalSplit { first, second, first_ratio } => {
            proof {
                lemma_concat_contains(first.ids(), second.ids(), target);
                lemma_concat_contains(first.ids(), second.ids(), new_id);
            }
            if first.contains_pane(target) {
                proof {
                    lemma_insert_after_left(first.ids(), second.ids(), target, new_id);
                }
                let f2 = split_leaf(*first, target, new_id, direction);
                proof {
                    lemma_disjoint_after_insert(
                        first.ids(),
                        second.ids(),
                        f2.ids(),
                        target,
                        new_id,
                    );
                }
                LayoutNode::VerticalSplit { first: Box::new(f2), second, first_ratio }
            } else {
                proof {
                    lemma_insert_after_right(first.ids(), second.ids(), target, new_id);
                }
                let s2 = split_leaf(*second, target, new_id, direction);
                proof {
                    lemma_disjoint_after_insert(
                        second.ids(),
                        first.ids(),
                        s2.ids(),
                        target,
                        new_id,
                    );
                    assert(forall|i: int, j: int|
                        0 <= i < first.ids().len() && 0 <= j < s2.ids().len() ==> first.ids()[i]
                            != s2.ids()[j]);
                }
                LayoutNode::VerticalSplit { first, second: Box::new(s2), first_ratio }
            }
        },
    }
}

/// Removes the leaf holding `target`; the sibling subtree takes its place
/// (collapsing the parent split), and removing the only pane yields `None`.
fn remove_leaf(node: LayoutNode, target: u64) -> (r: Option<LayoutNode>)
    requires
        node.wf(),
        node.ids().contains(target),
    ensures
        (r is None) <==> (node.ids() =~= seq![target]),
        r is Some ==> (r->0).wf() && (r->0).ids() == remove_first(node.ids(), target),
        r == spec_remove_leaf(node, target),
    decreases node,
{
    match node {
        LayoutNode::Pane(id) => {
            proof {
                assert(node.ids() =~= seq![id]);
                let i = choose|i: int| 0 <= i < node.ids().len() && node.ids()[i] == target;
                assert(id == target);
            }
            None
        },
        LayoutNode::HorizontalSplit { first, second, first_ratio } => {
            proof {
                lemma_concat_contains(first.ids(), second.ids(), target);
            }
            if first.contains_pane(target) {
                proof {
                    lemma_remove_first_left(first.ids(), second.ids(), target);
                }
                let inner = remove_leaf(*first, target);
                match inner {
                    Some(f2) => {
                        proof {
                            lemma_disjoint_after_remove(
                                first.ids(),
                                second.ids(),
                                f2.ids(),
                                target,
                            );
                            assert((LayoutNode::HorizontalSplit {
                                first: Box::new(f2),
                                second,
                                first_ratio,
                            }).ids() == f2.ids() + second.ids());
                        }
                        Some(
                            LayoutNode::HorizontalSplit {
                                first: Box::new(f2),
                                second,
                                first_ratio,
                            },
                        )
                    },
                    Option::None => {
                        proof {
                            assert(remove_first(node.ids(), target) =~= second.ids());
                            if node.ids() =~= seq![target] {
                                assert(second.ids().len() == 0);
                            }
                            assert(second.ids().len() > 0) by {
                                lemma_node_nonempty(*second);
                            }
                        }
                        Some(*second)
                    },
                }
            } else {
                proof {
                    lemma_remove_first_right(first.ids(), second.ids(), target);
                }
                let inner = remove_leaf(*second, target);
                match inner {
                    Some(s2) => {
                        proof {
                            lemma_disjoint_after_remove(
                                second.ids(),
                                first.ids(),
                                s2.ids(),
                                target,
                            );
                            assert(forall|i: int, j: int|
                                0 <= i < first.ids().len() && 0 <= j < s2.ids().len()
                                    ==> first.ids()[i] != s2.ids()[j]);
                        }
                        Some(
                            LayoutNode::HorizontalSplit {
                                first,
                                second: Box::new(s2),
                                first_ratio,
                            },
                        )
                    },
                    Option::None => {
                        proof {
                            assert(remove_first(node.ids(), target) =~= first.ids());
                            assert(first.ids().len() > 0) by {
                                lemma_node_nonempty(*first);
                            }
                        }
                        Some(*first)
                    },
                }
            }
        },
        LayoutNode::VerticalSplit { first, second, first_ratio } => {
            proof {
                lemma_concat_contains(first.ids(), second.ids(), target);
            }
            if first.contains_pane(target) {
                proof {
                    lemma_remove_first_left(first.ids(), second.ids(), target);
                }
                let inner = remove_leaf(*first, target);
                match inner {
                    Some(f2) => {
                        proof {
                            lemma_disjoint_after_remove(
                                first.ids(),
                                second.ids(),
                                f2.ids(),
                                target,
                            );
                        }
                        Some(
                            LayoutNode::VerticalSplit { first: Box::new(f2), second, first_ratio },
                        )
                    },
                    Option::None => {
                        proof {
                            assert(remove_first(node.ids(), target) =~= second.ids());
                            assert(second.ids().len() > 0) by {
                                lemma_node_nonempty(*second);
                            }
                        }
                        Some(*second)
                    },
                }
            } else {
                proof {
                    lemma_remove_first_right(first.ids(), second.ids(), target);
                }
                let inner = remove_leaf(*second, target);
                match inner {
                    Some(s2) => {
                        proof {
                            lemma_disjoint_after_remove(
                                second.ids(),
                                first.ids(),
                                s2.ids(),
                                target,
                            );
                            assert(forall|i: int, j: int|
                                0 <= i < first.ids().len() && 0 <= j < s2.ids().len()
                                    ==> first.ids()[i] != s2.ids()[j]);
                        }
                        Some(
                            LayoutNode::VerticalSplit { first, second: Box::new(s2), first_ratio },
                        )
                    },
                    Option::None => {
                        proof {
                            assert(remove_first(node.ids(), target) =~= first.ids());
                            assert(first.ids().len() > 0) by {
                                lemma_node_nonempty(*first);
                            }
                        }
                        Some(*first)
                    },
                }
            }
        },
    }
}

/// A split of two distinct single panes at the middle ratio is well formed.
proof fn lemma_fresh_split_wf(id: u64, new_id: u64, r: LayoutNode)
    requires
        id != new_id,
        r == (LayoutNode::HorizontalSplit {
            first: Box::new(LayoutNode::Pane(id)),
            second: Box::new(LayoutNode::Pane(new_id)),
            first_ratio: 500u32,
        }) || r == (LayoutNode::VerticalSplit {
            first: Box::new(LayoutNode::Pane(id)),
            second: Box::new(LayoutNode::Pane(new_id)),
            first_ratio: 500u32,
        }),
    ensures
        r.wf(),
{
    let a = LayoutNode::Pane(id);
    let b = LayoutNode::Pane(new_id);
    assert(a.ids() =~= seq![id]);
    assert(b.ids() =~= seq![new_id]);
    assert(a.wf());
    assert(b.wf());
    assert forall|i: int, j: int|
        0 <= i < a.ids().len() && 0 <= j < b.ids().len() implies a.ids()[i] != b.ids()[j] by {
        assert(a.ids()[i] == id);
        assert(b.ids()[j] == new_id);
    }
}

/// Every subtree holds at least one pane.
proof fn lemma_node_nonempty(node: LayoutNode)
    ensures
        node.ids().len() > 0,
    decreases node,
{
    match node {
        LayoutNode::Pane(id) => {
            assert(node.ids() =~= seq![id]);
        },
        LayoutNode::HorizontalSplit { first, second, .. } => {
            lemma_node_nonempty(*first);
        },
        LayoutNode::VerticalSplit { first, second, .. } => {
            lemma_node_nonempty(*first);
        },
    }
}

/// Scanning to the first occurrence at index `k` matches `first_index`.
proof fn lemma_first_index_at(s: Seq<u64>, t: u64, k: int)
    requires
        0 <= k < s.len(),
        s[k] == t,
        forall|i: int| 0 <= i < k ==> s[i] != t,
    ensures
        first_index(s, t) == k,
    decreases k,
{
    if k == 0 {
    } else {
        assert(s[0] != t);
        assert(s.skip(1)[k - 1] == t);
        lemma_first_index_at(s.skip(1), t, k - 1);
    }
}

/// Layout tree managing all panes.
///
/// The tree holds pane identifiers; the panes themselves sit in an arena
/// ordered exactly as the tree's depth-first traversal, so the pane at
/// arena position `k` is the `k`-th pane in tree order.
pub struct LayoutTree {
    /// The panes, in tree order.
    panes: Vec<Pane>,
    /// Root node of the layout tree
    root: LayoutNode,
    /// Currently focused pane ID
    focused_pane: u64,
}

impl LayoutTree {
    /// The pane identifiers in tree order.
    pub closed spec fn ids(&self) -> Seq<u64> {
        self.root.ids()
    }

    /// The identifier of the focused pane.
    pub closed spec fn focused_id(&self) -> u64 {
        self.focused_pane
    }

    /// The panes in tree order.
    pub closed spec fn panes_view(&self) -> Seq<Pane> {
        self.panes@
    }

    /// The tree of splits and pane identifiers.
    pub closed spec fn root_view(&self) -> LayoutNode {
        self.root
    }

    /// The tree is well formed, the arena mirrors it in order, the focused
    /// pane exists, and every pane's grid and parser are well formed.
    pub closed spec fn wf(&self) -> bool {
        &&& self.root.wf()
        &&& self.panes@.map_values(|p: Pane| p.id) == self.root.ids()
        &&& self.root.ids().contains(self.focused_pane)
        &&& forall|i: int| 0 <= i < self.panes@.len() ==> (#[trigger] self.panes@[i]).wf()
    }

    /// Create a new layout tree with a single pane
    pub fn new(initial_pane: Pane) -> (r: Self)
        requires
            initial_pane.wf(),
        ensures
            r.wf(),
            r.ids() == seq![initial_pane.id],
            r.focused_id() == initial_pane.id,
            r.panes_view() == seq![initial_pane],
    {
        let focused_pane = initial_pane.id;
        let root = LayoutNode::Pane(initial_pane.id);
        let mut panes = Vec::new();
        let ghost p = initial_pane;
        panes.push(initial_pane);
        let r = LayoutTree { panes, root, focused_pane };
        proof {
            assert(r.ids() =~= seq![p.id]);
            assert(r.panes_view() =~= seq![p]);
            assert(r.panes_view().map_values(|q: Pane| q.id) =~= r.ids());
            assert(r.ids()[0] == p.id);
        }
        r
    }

    /// Get the focused pane ID
    pub fn focused_pane_id(&self) -> (r: u64)
        ensures
            r == self.focused_id(),
    {
        self.focused_pane
    }

    /// Set focus to a specific pane; fails when no such pane exists.
    pub fn set_focus(&mut self, pane_id: u64) -> (r: bool)
        requires
            old(self).wf(),
        ensures
            final(self).wf(),
            r == old(self).ids().contains(pane_id),
            final(self).ids() == old(self).ids(),
            final(self).panes_view() == old(self).panes_view(),
            final(self).root_view() == old(self).root_view(),
            r ==> final(self).focused_id() == pane_id,
            !r ==> final(self).focused_id() == old(self).focused_id(),
    {
        if self.root.contains_pane(pane_id) {
            self.focused_pane = pane_id;
            true
        } else {
            false
        }
    }

    /// Count total panes
    pub fn pane_count(&self) -> (r: usize)
        requires
            self.wf(),
        ensures
            r == self.ids().len(),
    {
        self.panes.len()
    }

    /// Get all pane IDs, in tree order.
    pub fn all_pane_ids(&self) -> (r: Vec<u64>)
        ensures
            r@ == self.ids(),
    {
        self.root.collect_pane_ids()
    }

    /// The arena index of the pane with this identifier.
    fn index_of_pane(&self, id: u64) -> (r: usize)
        requires
            self.wf(),
            self.ids().contains(id),
        ensures
            r < self.panes_view().len(),
            self.panes_view()[r as int].id == id,
            forall|i: int| 0 <= i < r ==> (#[trigger] self.panes_view()[i]).id != id,
            first_index(self.ids(), id) == r,
    {
        let n = self.panes.len();
        let mut k: usize = 0;
        while k < n
            invariant
                self.wf(),
                k <= n == self.panes_view().len(),
                forall|i: int| 0 <= i < k ==> (#[trigger] self.panes_view()[i]).id != id,
            decreases n - k,
        {
            if self.panes[k].id == id {
                proof {
                    assert(self.ids()[k as int] == self.panes_view()[k as int].id);
                    assert forall|i: int| 0 <= i < k implies self.ids()[i] != id by {
                        assert(self.ids()[i] == self.panes_view()[i].id);
                    }
                    lemma_first_index_at(self.ids(), id, k as int);
                }
                return k;
            }
            k += 1;
        }
        proof {
            let i = choose|i: int| 0 <= i < self.ids().len() && self.ids()[i] == id;
            assert(self.ids()[i] == self.panes_view()[i].id);
            assert(false);
        }
        0
    }

    /// Get a pane by ID
    pub fn get_pane(&self, id: u64) -> (r: Option<&Pane>)
        requires
            self.wf(),
        ensures
            (r is Some) == self.ids().contains(id),
            r is Some ==> r->0.id == id && r->0.wf(),
    {
        if self.root.contains_pane(id) {
            let k = self.index_of_pane(id);
            Some(&self.panes[k])
        } else {
            None
        }
    }

    /// Get the currently focused pane
    pub fn focused_pane(&self) -> (r: Option<&Pane>)
        requires
            self.wf(),
        ensures
            r is Some,
            r->0.id == self.focused_id(),
            r->0.wf(),
    {
        self.get_pane(self.focused_pane)
    }

    /// Split the focused pane in the given direction, placing `new_pane`
    /// beside it and focusing it. Fails when the pane cap is reached or
    /// the new pane's identifier is already taken.
    pub fn split_focused(&mut self, direction: SplitDirection, new_pane: Pane) -> (r: Result<
        (),
        LayoutError,
    >)
        requires
            old(self).wf(),
            new_pane.wf(),
        ensures
            final(self).wf(),
            old(self).ids().len() >= MAX_PANES ==> r == Result::<(), LayoutError>::Err(
                LayoutError::PaneLimitReached,
            ) && *final(self) == *old(self),
            old(self).ids().len() < MAX_PANES && old(self).ids().contains(new_pane.id) ==> r
                == Result::<(), LayoutError>::Err(LayoutError::DuplicatePaneId) && *final(self)
                == *old(self),
            old(self).ids().len() < MAX_PANES && !old(self).ids().contains(new_pane.id) ==> {
                &&& r is Ok
                &&& final(self).root_view() == spec_split_leaf(
                    old(self).root_view(),
                    old(self).focused_id(),
                    new_pane.id,
                    direction,
                )
                &&& final(self).ids() == insert_after(
                    old(self).ids(),
                    old(self).focused_id(),
                    new_pane.id,
                )
                &&& final(self).ids().len() == old(self).ids().len() + 1
                &&& final(self).focused_id() == new_pane.id
                &&& final(self).panes_view() == old(self).panes_view().insert(
                    first_index(old(self).ids(), old(self).focused_id()) + 1,
                    new_pane,
                )
            },
    {
        if self.panes.len() >= MAX_PANES {
            return Err(LayoutError::PaneLimitReached);
        }
        if self.root.contains_pane(new_pane.id) {
            return Err(LayoutError::DuplicatePaneId);
        }
        let ghost old_ids = self.ids();
        let ghost old_focused = self.focused_pane;
        let new_id = new_pane.id;
        let k = self.index_of_pane(self.focused_pane);

        let mut taken = LayoutNode::Pane(0);
        core::mem::swap(&mut taken, &mut self.root);
        let new_root = split_leaf(taken, self.focused_pane, new_id, direction);
        self.root = new_root;
        self.panes.insert(k + 1, new_pane);
        self.focused_pane = new_id;

        proof {
            lemma_insert_after_at(old_ids, old_focused, new_id, k as int);
            lemma_insert_after_contains(old_ids, old_focused, new_id, new_id);
            assert(self.panes_view().map_values(|p: Pane| p.id) =~= self.ids());
        }
        Ok(())
    }

    /// Close the focused pane; its sibling subtree takes the freed space and
    /// focus moves to the first pane in tree order. The last pane cannot be
    /// closed.
    pub fn close_focused(&mut self) -> (r: Result<(), LayoutError>)
        requires
            old(self).wf(),
        ensures
            final(self).wf(),
            old(self).ids().len() <= 1 ==> r == Result::<(), LayoutError>::Err(
                LayoutError::CannotCloseLastPane,
            ) && *final(self) == *old(self),
            old(self).ids().len() > 1 ==> {
                &&& r is Ok
                &&& Some(final(self).root_view()) == spec_remove_leaf(
                    old(self).root_view(),
                    old(self).focused_id(),
                )
                &&& final(self).ids() == remove_first(old(self).ids(), old(self).focused_id())
                &&& final(self).ids().len() == old(self).ids().len() - 1
                &&& !final(self).ids().contains(old(self).focused_id())
                &&& final(self).focused_id() == final(self).ids()[0]
                &&& final(self).panes_view() == old(self).panes_view().remove(
                    first_index(old(self).ids(), old(self).focused_id()),
                )
            },
    {
        if self.panes.len() <= 1 {
            return Err(LayoutError::CannotCloseLastPane);
        }
        let ghost old_ids = self.ids();
        let ghost old_focused = self.focused_pane;
        let k = self.index_of_pane(self.focused_pane);

        let mut taken = LayoutNode::Pane(0);
        core::mem::swap(&mut taken, &mut self.root);
        let removed = remove_leaf(taken, self.focused_pane);
        match removed {
            Some(new_root) => {
                self.root = new_root;
            },
            None => {
                // Unreachable: the tree held at least two panes.
                proof {
                    assert(old_ids.len() == old(self).panes_view().len());
                    assert(false);
                }
                self.root = LayoutNode::Pane(0);
            },
        }
        self.panes.remove(k);
        proof {
            lemma_remove_first_at(old_ids, old_focused, k as int);
            lemma_remove_first_contains(old_ids, old_focused, 0);
            assert(self.panes_view().map_values(|p: Pane| p.id) =~= self.ids());
            // The focused pane occurred exactly once, so removing that
            // occurrence removes the identifier entirely.
            lemma_wf_ids_distinct(old(self).root_view());
            if self.ids().contains(old_focused) {
                let j = choose|j: int|
                    0 <= j < self.ids().len() && self.ids()[j] == old_focused;
                assert(self.ids() == old_ids.remove(k as int));
                if j < k {
                    assert(old_ids[j] == old_focused);
                    assert(old(self).panes_view()[j].id != old_focused);
                    assert(old_ids[j] == old(self).panes_view()[j].id);
                    assert(false);
                } else {
                    assert(old_ids[j + 1] == old_focused);
                    assert(old_ids[k as int] == old_focused);
                    assert(false);
                }
            }
        }
        self.focused_pane = self.panes[0].id;
        proof {
            assert(self.ids()[0] == self.panes_view()[0].id);
        }
        Ok(())
    }

    /// Focus the next pane in tree order (wrapping around).
    pub fn focus_next(&mut self)
        requires
            old(self).wf(),
        ensures
            final(self).wf(),
            final(self).ids() == old(self).ids(),
            final(self).panes_view() == old(self).panes_view(),
            final(self).root_view() == old(self).root_view(),
            old(self).ids().len() <= 1 ==> final(self).focused_id() == old(self).focused_id(),
            old(self).ids().len() > 1 ==> final(self).focused_id() == old(self).ids()[(first_index(
                old(self).ids(),
                old(self).focused_id(),
            ) + 1) % (old(self).ids().len() as int)],
    {
        if self.panes.len() <= 1 {
            return ;
        }
        let k = self.index_of_pane(self.focused_pane);
        let next = if k + 1 < self.panes.len() {
            k + 1
        } else {
            0
        };
        proof {
            if k + 1 < self.panes.len() {
                vstd::arithmetic::div_mod::lemma_small_mod((k + 1) as nat, self.ids().len() as nat);
            } else {
                vstd::arithmetic::div_mod::lemma_mod_self_0(self.ids().len() as int);
            }
            assert((k as int + 1) % (self.ids().len() as int) == next as int);
            assert(self.ids()[next as int] == self.panes_view()[next as int].id);
        }
        self.focused_pane = self.panes[next].id;
    }

    /// Focus the previous pane in tree order (wrapping around).
    pub fn focus_prev(&mut self)
        requires
            old(self).wf(),
        ensures
            final(self).wf(),
            final(self).ids() == old(self).ids(),
            final(self).panes_view() == old(self).panes_view(),
            final(self).root_view() == old(self).root_view(),
            old(self).ids().len() <= 1 ==> final(self).focused_id() == old(self).focused_id(),
            old(self).ids().len() > 1 ==> final(self).focused_id() == old(self).ids()[
                if first_index(old(self).ids(), old(self).focused_id()) == 0 {
                    old(self).ids().len() - 1
                } else {
                    first_index(old(self).ids(), old(self).focused_id()) - 1
                }],
    {
        if self.panes.len() <= 1 {
            return ;
        }
        let k = self.index_of_pane(self.focused_pane);
        let prev = if k == 0 {
            self.panes.len() - 1
        } else {
            k - 1
        };
        proof {
            assert(self.ids()[prev as int] == self.panes_view()[prev as int].id);
        }
        self.focused_pane = self.panes[prev].id;
    }

    /// Get the root node (for rendering)
    pub fn root(&self) -> (r: &LayoutNode)
        ensures
            *r == self.root_view(),
    {
        &self.root
    }
}

/// `a + b` capped at the top of the `u32` range.
pub open spec fn sat_add_u32(a: u32, b: u32) -> u32 {
    if a + b > u32::MAX {
        u32::MAX
    } else {
        (a + b) as u32
    }
}

/// The extent the first child of a split receives: its ratio share of the
/// parent extent, rounded down.
pub open spec fn first_extent(extent: u32, ratio: u32) -> u32
    recommends
        ratio <= RATIO_UNIT,
{
    ((extent * ratio) / (RATIO_UNIT as int)) as u32
}

/// The bounds every pane of the subtree receives, in tree order: splits
/// partition their rectangle between the two children by the stored ratio,
/// horizontally left to right, vertically top to bottom.
pub open spec fn assign_bounds(node: LayoutNode, bounds: Rect) -> Seq<Rect>
    decreases node,
{
    match node {
        LayoutNode::Pane(_) => seq![bounds],
        LayoutNode::HorizontalSplit { first, second, first_ratio } => {
            let w1 = first_extent(bounds.width, first_ratio);
            assign_bounds(
                *first,
                Rect { x: bounds.x, y: bounds.y, width: w1, height: bounds.height },
            ) + assign_bounds(
                *second,
                Rect {
                    x: sat_add_u32(bounds.x, w1),
                    y: bounds.y,
                    width: (bounds.width - w1) as u32,
                    height: bounds.height,
                },
            )
        },
        LayoutNode::VerticalSplit { first, second, first_ratio } => {
            let h1 = first_extent(bounds.height, first_ratio);
            assign_bounds(
                *first,
                Rect { x: bounds.x, y: bounds.y, width: bounds.width, height: h1 },
            ) + assign_bounds(
                *second,
                Rect {
                    x: bounds.x,
                    y: sat_add_u32(bounds.y, h1),
                    width: bounds.width,
                    height: (bounds.height - h1) as u32,
                },
            )
        },
    }
}


/// A subtree receives exactly one rectangle per pane.
proof fn lemma_assign_bounds_len(node: LayoutNode, bounds: Rect)
    ensures
        assign_bounds(node, bounds).len() == node.ids().len(),
    decreases node,
{
    match node {
        LayoutNode::Pane(id) => {
            assert(node.ids() =~= seq![id]);
        },
        LayoutNode::HorizontalSplit { first, second, first_ratio } => {
            let w1 = first_extent(bounds.width, first_ratio);
            lemma_assign_bounds_len(
                *first,
                Rect { x: bounds.x, y: bounds.y, width: w1, height: bounds.height },
            );
            lemma_assign_bounds_len(
                *second,
                Rect {
                    x: sat_add_u32(bounds.x, w1),
                    y: bounds.y,
                    width: (bounds.width - w1) as u32,
                    height: bounds.height,
                },
            );
        },
        LayoutNode::VerticalSplit { first, second, first_ratio } => {
            let h1 = first_extent(bounds.height, first_ratio);
            lemma_assign_bounds_len(
                *first,
                Rect { x: bounds.x, y: bounds.y, width: bounds.width, height: h1 },
            );
            lemma_assign_bounds_len(
                *second,
                Rect {
                    x: bounds.x,
                    y: sat_add_u32(bounds.y, h1),
                    width: bounds.width,
                    height: (bounds.height - h1) as u32,
                },
            );
        },
    }
}

/// Computes the first child's share of an extent.
fn first_extent_exec(extent: u32, ratio: u32) -> (r: u32)
    requires
        ratio <= RATIO_UNIT,
    ensures
        r == first_extent(extent, ratio),
        r <= extent,
{
    proof {
        assert((extent as int) * (ratio as int) <= (u32::MAX as int) * (RATIO_UNIT as int))
            by (nonlinear_arith)
            requires
                extent <= u32::MAX,
                0 <= ratio <= RATIO_UNIT,
        ;
    }
    let wide: u64 = (extent as u64) * (ratio as u64);
    let share: u64 = wide / (RATIO_UNIT as u64);
    proof {
        assert(extent as int * ratio as int <= extent as int * RATIO_UNIT as int)
            by (nonlinear_arith)
            requires
                ratio <= RATIO_UNIT,
                extent >= 0,
        ;
        assert(extent as int * (RATIO_UNIT as int) / (RATIO_UNIT as int) == extent as int)
            by (nonlinear_arith);
        vstd::arithmetic::div_mod::lemma_div_is_ordered(
            extent as int * ratio as int,
            extent as int * RATIO_UNIT as int,
            RATIO_UNIT as int,
        );
    }
    share as u32
}

/// Writes each pane's bounds for the subtree rooted at `node`, whose panes
/// sit at arena positions `k ..`, and returns the position after the
/// subtree.
fn apply_bounds(node: &LayoutNode, panes: &mut Vec<Pane>, k: usize, bounds: Rect) -> (next: usize)
    requires
        node.wf(),
        k + node.ids().len() <= old(panes)@.len(),
    ensures
        next == k + node.ids().len(),
        final(panes)@.len() == old(panes)@.len(),
        forall|j: int|
            0 <= j < old(panes)@.len() && !(k <= j < next) ==> final(panes)@[j] == old(panes)@[j],
        forall|j: int|
            k <= j < next ==> final(panes)@[j] == (Pane {
                bounds: assign_bounds(*node, bounds)[j - k],
                ..old(panes)@[j]
            }),
    decreases *node,
{
    match node {
        LayoutNode::Pane(_) => {
            proof {
                assert(node.ids().len() == 1) by {
                    lemma_node_nonempty(*node);
                    assert(node.ids() =~= seq![node->Pane_0]);
                }
                assert(assign_bounds(*node, bounds) =~= seq![bounds]);
            }
            let n = panes.len();
            proof {
                assert(k < n);
            }
            let mut p = panes.remove(k);
            p.bounds = bounds;
            panes.insert(k, p);
            proof {
                assert forall|j: int|
                    0 <= j < old(panes)@.len() && !(k <= j < k + 1) implies final(panes)@[j] == old(
                    panes,
                )@[j] by {
                    assert(final(panes)@ =~= old(panes)@.update(k as int, final(panes)@[k as int]));
                }
            }
            k + 1
        },
        LayoutNode::HorizontalSplit { first, second, first_ratio } => {
            let w1 = first_extent_exec(bounds.width, *first_ratio);
            let r1 = Rect { x: bounds.x, y: bounds.y, width: w1, height: bounds.height };
            let x2 = if bounds.x <= u32::MAX - w1 {
                bounds.x + w1
            } else {
                u32::MAX
            };
            let r2 = Rect { x: x2, y: bounds.y, width: bounds.width - w1, height: bounds.height };
            let m = apply_bounds(first, panes, k, r1);
            let next = apply_bounds(second, panes, m, r2);
            proof {
                let ab = assign_bounds(*node, bounds);
                let a1 = assign_bounds(**first, r1);
                let a2 = assign_bounds(**second, r2);
                lemma_assign_bounds_len(**first, r1);
                lemma_assign_bounds_len(**second, r2);
                assert(ab =~= a1 + a2);
                assert forall|j: int| k <= j < next implies final(panes)@[j] == (Pane {
                    bounds: ab[j - k],
                    ..old(panes)@[j]
                }) by {
                    if j < m {
                        assert(ab[j - k] == a1[j - k]);
                    } else {
                        assert(ab[j - k] == a2[j - m]);
                    }
                }
            }
            next
        },
        LayoutNode::VerticalSplit { first, second, first_ratio } => {
            let h1 = first_extent_exec(bounds.height, *first_ratio);
            let r1 = Rect { x: bounds.x, y: bounds.y, width: bounds.width, height: h1 };
            let y2 = if bounds.y <= u32::MAX - h1 {
                bounds.y + h1
            } else {
                u32::MAX
            };
            let r2 = Rect { x: bounds.x, y: y2, width: bounds.width, height: bounds.height - h1 };
            let m = apply_bounds(first, panes, k, r1);
            let next = apply_bounds(second, panes, m, r2);
            proof {
                let ab = assign_bounds(*node, bounds);
                let a1 = assign_bounds(**first, r1);
                let a2 = assign_bounds(**second, r2);
                lemma_assign_bounds_len(**first, r1);
                lemma_assign_bounds_len(**second, r2);
                assert(ab =~= a1 + a2);
                assert forall|j: int| k <= j < next implies final(panes)@[j] == (Pane {
                    bounds: ab[j - k],
                    ..old(panes)@[j]
                }) by {
                    if j < m {
                        assert(ab[j - k] == a1[j - k]);
                    } else {
                        assert(ab[j - k] == a2[j - m]);
                    }
                }
            }
            next
        },
    }
}

impl LayoutTree {
    /// Calculate layout bounds for all panes by recursively partitioning
    /// `total_bounds` according to each split's ratio.
    pub fn calculate_layout(&mut self, total_bounds: Rect)
        requires
            old(self).wf(),
        ensures
            final(self).wf(),
            final(self).ids() == old(self).ids(),
            final(self).focused_id() == old(self).focused_id(),
            final(self).root_view() == old(self).root_view(),
            final(self).panes_view().len() == old(self).panes_view().len(),
            forall|j: int|
                0 <= j < old(self).panes_view().len() ==> final(self).panes_view()[j] == (Pane {
                    bounds: assign_bounds(old(self).root_view(), total_bounds)[j],
                    ..old(self).panes_view()[j]
                }),
    {
        proof {
            assert(self.panes_view().map_values(|p: Pane| p.id).len() == self.ids().len());
        }
        apply_bounds(&self.root, &mut self.panes, 0, total_bounds);
        proof {
            assert(self.panes_view().map_values(|p: Pane| p.id) =~= self.ids());
        }
    }
}

/// A ratio forced into the allowed band.
pub open spec fn clamp_ratio(v: int) -> u32 {
    if v < RATIO_MIN {
        RATIO_MIN
    } else if v > RATIO_MAX {
        RATIO_MAX
    } else {
        v as u32
    }
}

/// Whether some split of this direction lies on the path from `node` down
/// to the pane `target`.
pub open spec fn has_matching_split(node: LayoutNode, target: u64, dir: SplitDirection) -> bool
    decreases node,
{
    match node {
        LayoutNode::Pane(_) => false,
        LayoutNode::HorizontalSplit { first, second, .. } => {
            if first.ids().contains(target) {
                dir is Horizontal || has_matching_split(*first, target, dir)
            } else if second.ids().contains(target) {
                dir is Horizontal || has_matching_split(*second, target, dir)
            } else {
                false
            }
        },
        LayoutNode::VerticalSplit { first, second, .. } => {
            if first.ids().contains(target) {
                dir is Vertical || has_matching_split(*first, target, dir)
            } else if second.ids().contains(target) {
                dir is Vertical || has_matching_split(*second, target, dir)
            } else {
                false
            }
        },
    }
}

/// The tree after resizing `target`'s immediate sibling group: the innermost
/// split of matching direction on the path to `target` trades `delta`
/// thousandths between its children (clamped to the allowed band); with no
/// matching split the tree is unchanged.
pub open spec fn spec_resize_node(
    node: LayoutNode,
    target: u64,
    dir: SplitDirection,
    delta: int,
) -> LayoutNode
    decreases node,
{
    match node {
        LayoutNode::Pane(_) => node,
        LayoutNode::HorizontalSplit { first, second, first_ratio } => {
            if first.ids().contains(target) {
                if has_matching_split(*first, target, dir) {
                    LayoutNode::HorizontalSplit {
                        first: Box::new(spec_resize_node(*first, target, dir, delta)),
                        second,
                        first_ratio,
                    }
                } else if dir is Horizontal {
                    LayoutNode::HorizontalSplit {
                        first,
                        second,
                        first_ratio: clamp_ratio(first_ratio + delta),
                    }
                } else {
                    node
                }
            } else if second.ids().contains(target) {
                if has_matching_split(*second, target, dir) {
                    LayoutNode::HorizontalSplit {
                        first,
                        second: Box::new(spec_resize_node(*second, target, dir, delta)),
                        first_ratio,
                    }
                } else if dir is Horizontal {
                    LayoutNode::HorizontalSplit {
                        first,
                        second,
                        first_ratio: clamp_ratio(first_ratio - delta),
                    }
                } else {
                    node
                }
            } else {
                node
            }
        },
        LayoutNode::VerticalSplit { first, second, first_ratio } => {
            if first.ids().contains(target) {
                if has_matching_split(*first, target, dir) {
                    LayoutNode::VerticalSplit {
                        first: Box::new(spec_resize_node(*first, target, dir, delta)),
                        second,
                        first_ratio,
                    }
                } else if dir is Vertical {
                    LayoutNode::VerticalSplit {
                        first,
                        second,
                        first_ratio: clamp_ratio(first_ratio + delta),
                    }
                } else {
                    node
                }
            } else if second.ids().contains(target) {
                if has_matching_split(*second, target, dir) {
                    LayoutNode::VerticalSplit {
                        first,
                        second: Box::new(spec_resize_node(*second, target, dir, delta)),
                        first_ratio,
                    }
                } else if dir is Vertical {
                    LayoutNode::VerticalSplit {
                        first,
                        second,
                        first_ratio: clamp_ratio(first_ratio - delta),
                    }
                } else {
                    node
                }
            } else {
                node
            }
        },
    }
}

/// Whether any split on the path down to `target` runs in this direction.
fn has_matching_split_exec(node: &LayoutNode, target: u64, dir: SplitDirection) -> (r: bool)
    ensures
        r == has_matching_split(*node, target, dir),
    decreases *node,
{
    match node {
        LayoutNode::Pane(_) => false,
        LayoutNode::HorizontalSplit { first, second, .. } => {
            if first.contains_pane(target) {
                match dir {
                    SplitDirection::Horizontal => true,
                    SplitDirection::Vertical => has_matching_split_exec(first, target, dir),
                }
            } else if second.contains_pane(target) {
                match dir {
                    SplitDirection::Horizontal => true,
                    SplitDirection::Vertical => has_matching_split_exec(second, target, dir),
                }
            } else {
                false
            }
        },
        LayoutNode::VerticalSplit { first, second, .. } => {
            if first.contains_pane(target) {
                match dir {
                    SplitDirection::Vertical => true,
                    SplitDirection::Horizontal => has_matching_split_exec(first, target, dir),
                }
            } else if second.contains_pane(target) {
                match dir {
                    SplitDirection::Vertical => true,
                    SplitDirection::Horizontal => has_matching_split_exec(second, target, dir),
                }
            } else {
                false
            }
        },
    }
}

/// A split ratio moved by `delta` thousandths, clamped to the allowed band.
fn clamp_ratio_exec(ratio: u32, delta: i64) -> (r: u32)
    requires
        ratio <= RATIO_UNIT,
        -0x1_0000_0000 <= delta <= 0x1_0000_0000,
    ensures
        r == clamp_ratio(ratio + delta),
{
    let v: i64 = (ratio as i64) + delta;
    if v < RATIO_MIN as i64 {
        RATIO_MIN
    } else if v > RATIO_MAX as i64 {
        RATIO_MAX
    } else {
        v as u32
    }
}

/// Rebuilds the tree with `target`'s sibling group resized.
fn resize_node(node: LayoutNode, target: u64, dir: SplitDirection, delta: i32) -> (r: LayoutNode)
    requires
        node.wf(),
    ensures
        r == spec_resize_node(node, target, dir, delta as int),
        r.wf(),
        r.ids() == node.ids(),
    decreases node,
{
    match node {
        LayoutNode::Pane(id) => LayoutNode::Pane(id),
        LayoutNode::HorizontalSplit { first, second, first_ratio } => {
            if first.contains_pane(target) {
                if has_matching_split_exec(&first, target, dir) {
                    let f2 = resize_node(*first, target, dir, delta);
                    let r = LayoutNode::HorizontalSplit {
                        first: Box::new(f2),
                        second,
                        first_ratio,
                    };
                    proof {
                        assert(r.ids() =~= node.ids());
                    }
                    r
                } else {
                    match dir {
                        SplitDirection::Horizontal => {
                            let r = LayoutNode::HorizontalSplit {
                                first,
                                second,
                                first_ratio: clamp_ratio_exec(first_ratio, delta as i64),
                            };
                            proof {
                                assert(r.ids() =~= node.ids());
                            }
                            r
                        },
                        SplitDirection::Vertical => LayoutNode::HorizontalSplit {
                            first,
                            second,
                            first_ratio,
                        },
                    }
                }
            } else if second.contains_pane(target) {
                if has_matching_split_exec(&second, target, dir) {
                    let s2 = resize_node(*second, target, dir, delta);
                    let r = LayoutNode::HorizontalSplit {
                        first,
                        second: Box::new(s2),
                        first_ratio,
                    };
                    proof {
                        assert(r.ids() =~= node.ids());
                    }
                    r
                } else {
                    match dir {
                        SplitDirection::Horizontal => {
                            let r = LayoutNode::HorizontalSplit {
                                first,
                                second,
                                first_ratio: clamp_ratio_exec(first_ratio, -(delta as i64)),
                            };
                            proof {
                                assert(r.ids() =~= node.ids());
                            }
                            r
                        },
                        SplitDirection::Vertical => LayoutNode::HorizontalSplit {
                            first,
                            second,
                            first_ratio,
                        },
                    }
                }
            } else {
                LayoutNode::HorizontalSplit { first, second, first_ratio }
            }
        },
        LayoutNode::VerticalSplit { first, second, first_ratio } => {
            if first.contains_pane(target) {
                if has_matching_split_exec(&first, target, dir) {
                    let f2 = resize_node(*first, target, dir, delta);
                    let r = LayoutNode::VerticalSplit { first: Box::new(f2), second, first_ratio };
                    proof {
                        assert(r.ids() =~= node.ids());
                    }
                    r
                } else {
                    match dir {
                        SplitDirection::Vertical => {
                            let r = LayoutNode::VerticalSplit {
                                first,
                                second,
                                first_ratio: clamp_ratio_exec(first_ratio, delta as i64),
                            };
                            proof {
                                assert(r.ids() =~= node.ids());
                            }
                            r
                        },
                        SplitDirection::Horizontal => LayoutNode::VerticalSplit {
                            first,
                            second,
                            first_ratio,
                        },
                    }
                }
            } else if second.contains_pane(target) {
                if has_matching_split_exec(&second, target, dir) {
                    let s2 = resize_node(*second, target, dir, delta);
                    let r = LayoutNode::VerticalSplit { first, second: Box::new(s2), first_ratio };
                    proof {
                        assert(r.ids() =~= node.ids());
                    }
                    r
                } else {
                    match dir {
                        SplitDirection::Vertical => {
                            let r = LayoutNode::VerticalSplit {
                                first,
                                second,
                                first_ratio: clamp_ratio_exec(first_ratio, -(delta as i64)),
                            };
                            proof {
                                assert(r.ids() =~= node.ids());
                            }
                            r
                        },
                        SplitDirection::Horizontal => LayoutNode::VerticalSplit {
                            first,
                            second,
                            first_ratio,
                        },
                    }
                }
            } else {
                LayoutNode::VerticalSplit { first, second, first_ratio }
            }
        },
    }
}

impl LayoutTree {
    /// Resize the focused pane by trading `delta` thousandths of the parent
    /// extent with its sibling at the innermost split of matching direction.
    /// A lone pane has nothing to trade with; a missing matching split
    /// leaves the tree unchanged.
    pub fn resize_focused(&mut self, direction: SplitDirection, delta: i32) -> (r: Result<
        (),
        LayoutError,
    >)
        requires
            old(self).wf(),
        ensures
            final(self).wf(),
            final(self).ids() == old(self).ids(),
            final(self).panes_view() == old(self).panes_view(),
            final(self).focused_id() == old(self).focused_id(),
            old(self).root_view() is Pane ==> r == Result::<(), LayoutError>::Err(
                LayoutError::NoAdjacentPane,
            ) && final(self).root_view() == old(self).root_view(),
            !(old(self).root_view() is Pane) ==> r is Ok && final(self).root_view()
                == spec_resize_node(
                old(self).root_view(),
                old(self).focused_id(),
                direction,
                delta as int,
            ),
    {
        if self.root.is_pane() {
            return Err(LayoutError::NoAdjacentPane);
        }
        let mut taken = LayoutNode::Pane(0);
        core::mem::swap(&mut taken, &mut self.root);
        let new_root = resize_node(taken, self.focused_pane, direction, delta);
        self.root = new_root;
        Ok(())
    }

    /// Feed PTY output bytes to the pane with this identifier: its parser
    /// consumes them in order and drives its grid. Returns whether the pane
    /// exists.
    pub fn feed_pane(&mut self, id: u64, bytes: &[u8]) -> (found: bool)
        requires
            old(self).wf(),
        ensures
            final(self).wf(),
            found == old(self).ids().contains(id),
            final(self).ids() == old(self).ids(),
            final(self).focused_id() == old(self).focused_id(),
            final(self).root_view() == old(self).root_view(),
            final(self).panes_view().len() == old(self).panes_view().len(),
            !found ==> final(self).panes_view() == old(self).panes_view(),
            found ==> ({
                let k = first_index(old(self).ids(), id);
                &&& forall|j: int|
                    0 <= j < old(self).panes_view().len() && j != k ==> final(self).panes_view()[j]
                        == old(self).panes_view()[j]
                &&& final(self).panes_view()[k].id == old(self).panes_view()[k].id
                &&& final(self).panes_view()[k].title == old(self).panes_view()[k].title
                &&& final(self).panes_view()[k].bounds == old(self).panes_view()[k].bounds
                &&& final(self).panes_view()[k].parser@
                    == crate::terminal::parser::spec_parse(
                    old(self).panes_view()[k].parser@,
                    bytes@,
                )
                &&& final(self).panes_view()[k].grid@
                    == crate::terminal::parser::spec_parse_sink::<TerminalGrid>(
                    old(self).panes_view()[k].parser@,
                    old(self).panes_view()[k].grid@,
                    bytes@,
                )
            }),
    {
        if !self.root.contains_pane(id) {
            return false;
        }
        let k = self.index_of_pane(id);
        let mut p = self.panes.remove(k);
        p.parser.parse_bytes_with_output(bytes, &mut p.grid);
        self.panes.insert(k, p);
        proof {
            assert(final(self).panes_view() =~= old(self).panes_view().update(
                k as int,
                final(self).panes_view()[k as int],
            ));
            assert(final(self).panes_view().map_values(|q: Pane| q.id) =~= final(self).ids());
            assert forall|i: int|
                0 <= i < final(self).panes_view().len() implies (#[trigger] final(self).panes_view()[i]).wf() by {
                if i != k {
                    assert(final(self).panes_view()[i] == old(self).panes_view()[i]);
                }
            }
        }
        true
    }

    /// Resize the grid and parser of the pane with this identifier. Returns
    /// whether the pane exists.
    pub fn resize_pane(&mut self, id: u64, cols: usize, rows: usize) -> (found: bool)
        requires
            old(self).wf(),
            cols * rows <= usize::MAX,
        ensures
            final(self).wf(),
            found == old(self).ids().contains(id),
            final(self).ids() == old(self).ids(),
            final(self).focused_id() == old(self).focused_id(),
            final(self).root_view() == old(self).root_view(),
            final(self).panes_view().len() == old(self).panes_view().len(),
            !found ==> final(self).panes_view() == old(self).panes_view(),
            found ==> ({
                let k = first_index(old(self).ids(), id);
                &&& forall|j: int|
                    0 <= j < old(self).panes_view().len() && j != k ==> final(self).panes_view()[j]
                        == old(self).panes_view()[j]
                &&& final(self).panes_view()[k].id == old(self).panes_view()[k].id
                &&& final(self).panes_view()[k].grid@ == old(
                    self,
                ).panes_view()[k].grid@.spec_resize(cols as nat, rows as nat)
            }),
    {
        if !self.root.contains_pane(id) {
            return false;
        }
        let k = self.index_of_pane(id);
        let mut p = self.panes.remove(k);
        p.grid.resize(cols, rows);
        p.parser.resize(cols, rows);
        self.panes.insert(k, p);
        proof {
            assert(final(self).panes_view() =~= old(self).panes_view().update(
                k as int,
                final(self).panes_view()[k as int],
            ));
            assert(final(self).panes_view().map_values(|q: Pane| q.id) =~= final(self).ids());
            assert forall|i: int|
                0 <= i < final(self).panes_view().len() implies (#[trigger] final(self).panes_view()[i]).wf() by {
                if i != k {
                    assert(final(self).panes_view()[i] == old(self).panes_view()[i]);
                }
            }
        }
        true
    }
}

} // verus!
