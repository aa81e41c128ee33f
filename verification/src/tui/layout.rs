//! Panes as a binary tree of splits.
//!
//! A split remembers which share of the area its first half gets as the bit
//! pattern of a single-precision number. The functions here carry that pattern
//! along and never look into it: what a share is of a number of cells, and what
//! a resize makes of it, are handed in by the caller.
use vstd::prelude::*;

use super::input::Direction;
use super::screen::{covers, Rect};
use crate::text::same_text;

verus! {

/// Which way a split divides its area.
#[derive(Debug, Clone, Copy, PartialEq, Eq, Structural)]
pub enum SplitDirection {
    /// One half above the other.
    Horizontal,
    /// One half beside the other.
    Vertical,
}

/// The share that a new split gives to its first half: the bit pattern of 0.5.
pub const EVEN_SHARE: u32 = 0x3f00_0000;

#[derive(Debug)]
enum LayoutNode {
    Leaf { terminal_id: String },
    Split {
        direction: SplitDirection,
        ratio: u32,
        first: Box<LayoutNode>,
        second: Box<LayoutNode>,
    },
}

/// The panes of a window and the one that has the focus.
pub struct PaneLayout {
    root: LayoutNode,
    focused: String,
}

/// The tree of panes, as contracts speak of it.
pub enum Tree {
    Leaf(Seq<char>),
    Split { direction: SplitDirection, ratio: u32, first: Box<Tree>, second: Box<Tree> },
}

/// A pane layout, as contracts speak of it.
pub struct Layout {
    pub root: Tree,
    pub focused: Seq<char>,
}

spec fn tree_of(node: LayoutNode) -> Tree
    decreases node,
{
    match node {
        LayoutNode::Leaf { terminal_id } => Tree::Leaf(terminal_id@),
        LayoutNode::Split { direction, ratio, first, second } => Tree::Split {
            direction,
            ratio,
            first: Box::new(tree_of(*first)),
            second: Box::new(tree_of(*second)),
        },
    }
}

impl View for PaneLayout {
    type V = Layout;

    closed spec fn view(&self) -> Layout {
        Layout { root: tree_of(self.root), focused: self.focused@ }
    }
}

/// The terminals of a tree, first halves before second halves.
pub open spec fn leaves(tree: Tree) -> Seq<Seq<char>>
    decreases tree,
{
    match tree {
        Tree::Leaf(id) => seq![id],
        Tree::Split { first, second, .. } => leaves(*first) + leaves(*second),
    }
}

/// Whether a terminal is one of the leaves.
pub open spec fn holds(tree: Tree, id: Seq<char>) -> bool
    decreases tree,
{
    match tree {
        Tree::Leaf(leaf) => leaf == id,
        Tree::Split { first, second, .. } => holds(*first, id) || holds(*second, id),
    }
}

/// The leaf that is reached by going to the first half as long as there is one.
pub open spec fn first_leaf(tree: Tree) -> Seq<char>
    decreases tree,
{
    match tree {
        Tree::Leaf(id) => id,
        Tree::Split { first, .. } => first_leaf(*first),
    }
}

/// How far an area extends along the axis that a split divides.
pub open spec fn extent(area: Rect, direction: SplitDirection) -> u16 {
    match direction {
        SplitDirection::Vertical => area.width,
        SplitDirection::Horizontal => area.height,
    }
}

/// Where an area starts on the axis that a split divides.
pub open spec fn origin(area: Rect, direction: SplitDirection) -> u16 {
    match direction {
        SplitDirection::Vertical => area.x,
        SplitDirection::Horizontal => area.y,
    }
}

/// The first half of a split area, `cells` columns or rows of it.
pub open spec fn first_part(area: Rect, direction: SplitDirection, cells: u16) -> Rect {
    match direction {
        SplitDirection::Vertical => Rect { width: cells, ..area },
        SplitDirection::Horizontal => Rect { height: cells, ..area },
    }
}

/// What a first half of `cells` columns or rows leaves of an extent.
pub open spec fn left_over(whole: u16, cells: u16) -> u16 {
    if whole >= cells {
        (whole - cells) as u16
    } else {
        0
    }
}

/// The second half of a split area: what the first half leaves.
pub open spec fn second_part(area: Rect, direction: SplitDirection, cells: u16) -> Rect {
    match direction {
        SplitDirection::Vertical => Rect {
            x: (area.x + cells) as u16,
            width: left_over(area.width, cells),
            ..area
        },
        SplitDirection::Horizontal => Rect {
            y: (area.y + cells) as u16,
            height: left_over(area.height, cells),
            ..area
        },
    }
}

/// The panes of a tree with their places in an area. `cut` says how many cells
/// of an extent a share is.
pub open spec fn panes(tree: Tree, area: Rect, cut: spec_fn(u16, u32) -> u16) -> Seq<
    (Seq<char>, Rect),
>
    decreases tree,
{
    match tree {
        Tree::Leaf(id) => seq![(id, area)],
        Tree::Split { direction, ratio, first, second } => {
            let cells = cut(extent(area, direction), ratio);
            panes(*first, first_part(area, direction, cells), cut) + panes(
                *second,
                second_part(area, direction, cells),
                cut,
            )
        },
    }
}

/// Whether every second half starts at a cell that has a number.
pub open spec fn splits_fit(tree: Tree, area: Rect, cut: spec_fn(u16, u32) -> u16) -> bool
    decreases tree,
{
    match tree {
        Tree::Leaf(_) => true,
        Tree::Split { direction, ratio, first, second } => {
            let cells = cut(extent(area, direction), ratio);
            &&& origin(area, direction) + cells <= u16::MAX
            &&& splits_fit(*first, first_part(area, direction, cells), cut)
            &&& splits_fit(*second, second_part(area, direction, cells), cut)
        },
    }
}

/// Whether every cell of an area has a number.
pub open spec fn area_fits(area: Rect) -> bool {
    area.x + area.width <= u16::MAX && area.y + area.height <= u16::MAX
}

/// Whether every share in a tree is one of those that `fair` admits.
pub open spec fn shares_in(tree: Tree, fair: spec_fn(u32) -> bool) -> bool
    decreases tree,
{
    match tree {
        Tree::Leaf(_) => true,
        Tree::Split { ratio, first, second, .. } => fair(ratio) && shares_in(*first, fair)
            && shares_in(*second, fair),
    }
}

/// Whether a fair share is never more than the whole.
pub open spec fn never_exceeds(cut: spec_fn(u16, u32) -> u16, fair: spec_fn(u32) -> bool) -> bool {
    forall|whole: u16, ratio: u32| fair(ratio) ==> #[trigger] cut(whole, ratio) <= whole
}

/// Whether a fair share of more is not less, and what it leaves is not less
/// either.
pub open spec fn steady(cut: spec_fn(u16, u32) -> u16, fair: spec_fn(u32) -> bool) -> bool {
    forall|less: u16, more: u16, ratio: u32|
        fair(ratio) && less <= more ==> {
            &&& #[trigger] cut(less, ratio) <= #[trigger] cut(more, ratio)
            &&& less - cut(less, ratio) <= more - cut(more, ratio)
        }
}

/// Whether an adjustment makes fair shares of fair shares.
pub open spec fn stays_fair(adjust: spec_fn(u32, bool) -> u32, fair: spec_fn(u32) -> bool) -> bool {
    forall|ratio: u32, grow: bool| fair(ratio) ==> fair(#[trigger] adjust(ratio, grow))
}

/// Whether a fair share that is told to grow does not become less of anything,
/// and one that is told to shrink does not become more.
pub open spec fn obeys(
    adjust: spec_fn(u32, bool) -> u32,
    cut: spec_fn(u16, u32) -> u16,
    fair: spec_fn(u32) -> bool,
) -> bool {
    forall|whole: u16, ratio: u32, grow: bool|
        #![trigger cut(whole, adjust(ratio, grow))]
        fair(ratio) ==> if grow {
            cut(whole, ratio) <= cut(whole, adjust(ratio, grow))
        } else {
            cut(whole, adjust(ratio, grow)) <= cut(whole, ratio)
        }
}

/// The tree after the first leaf that is `target` has been split, or nothing
/// where there is no such leaf.
pub open spec fn split_leaf(
    tree: Tree,
    target: Seq<char>,
    direction: SplitDirection,
    new_id: Seq<char>,
) -> Option<Tree>
    decreases tree,
{
    match tree {
        Tree::Leaf(id) => if id == target {
            Some(
                Tree::Split {
                    direction,
                    ratio: EVEN_SHARE,
                    first: Box::new(tree),
                    second: Box::new(Tree::Leaf(new_id)),
                },
            )
        } else {
            None
        },
        Tree::Split { direction: d, ratio, first, second } => match split_leaf(
            *first,
            target,
            direction,
            new_id,
        ) {
            Some(changed) => Some(
                Tree::Split { direction: d, ratio, first: Box::new(changed), second },
            ),
            None => match split_leaf(*second, target, direction, new_id) {
                Some(changed) => Some(
                    Tree::Split { direction: d, ratio, first, second: Box::new(changed) },
                ),
                None => None,
            },
        },
    }
}

/// The tree after a leaf has left and its sibling has taken the place of their
/// split, with the first leaf of that sibling. A tree of one leaf keeps it.
pub open spec fn remove_leaf(tree: Tree, target: Seq<char>) -> Option<(Tree, Seq<char>)>
    decreases tree,
{
    match tree {
        Tree::Leaf(_) => None,
        Tree::Split { direction, ratio, first, second } => if *first == Tree::Leaf(target) {
            Some((*second, first_leaf(*second)))
        } else if *second == Tree::Leaf(target) {
            Some((*first, first_leaf(*first)))
        } else {
            match remove_leaf(*first, target) {
                Some((changed, id)) => Some(
                    (Tree::Split { direction, ratio, first: Box::new(changed), second }, id),
                ),
                None => match remove_leaf(*second, target) {
                    Some((changed, id)) => Some(
                        (Tree::Split { direction, ratio, first, second: Box::new(changed) }, id),
                    ),
                    None => None,
                },
            }
        },
    }
}

/// The axis that a resize works on.
pub open spec fn axis_of(direction: Direction) -> SplitDirection {
    match direction {
        Direction::Left | Direction::Right => SplitDirection::Vertical,
        Direction::Up | Direction::Down => SplitDirection::Horizontal,
    }
}

/// Whether a resize moves a split's border away from the first half.
pub open spec fn grows_first(direction: Direction) -> bool {
    direction == Direction::Right || direction == Direction::Down
}

/// The tree after a resize: on the way from the root to the first leaf that is
/// `target`, each split along `axis` has its share adjusted. `adjust` gets the
/// share and whether it is to grow. It grows where the leaf is in the first half
/// and `grow_first` holds, and where it is in the second half and `grow_first`
/// does not hold.
pub open spec fn resized(
    tree: Tree,
    target: Seq<char>,
    axis: SplitDirection,
    grow_first: bool,
    adjust: spec_fn(u32, bool) -> u32,
) -> Tree
    decreases tree,
{
    match tree {
        Tree::Leaf(_) => tree,
        Tree::Split { direction, ratio, first, second } => if holds(*first, target) {
            Tree::Split {
                direction,
                ratio: if direction == axis {
                    adjust(ratio, grow_first)
                } else {
                    ratio
                },
                first: Box::new(resized(*first, target, axis, grow_first, adjust)),
                second,
            }
        } else if holds(*second, target) {
            Tree::Split {
                direction,
                ratio: if direction == axis {
                    adjust(ratio, !grow_first)
                } else {
                    ratio
                },
                first,
                second: Box::new(resized(*second, target, axis, grow_first, adjust)),
            }
        } else {
            tree
        },
    }
}

/// Whether two ranges of cells have one in common, where neither is empty.
pub open spec fn overlap(a_start: int, a_len: int, b_start: int, b_len: int) -> bool {
    a_start < b_start + b_len && b_start < a_start + a_len
}

/// Whether a pane lies beyond the focused one in a direction, with some row or
/// column in common.
pub open spec fn beyond(direction: Direction, from: Rect, r: Rect) -> bool {
    match direction {
        Direction::Left => r.x + r.width <= from.x && overlap(
            r.y as int,
            r.height as int,
            from.y as int,
            from.height as int,
        ),
        Direction::Right => r.x >= from.x + from.width && overlap(
            r.y as int,
            r.height as int,
            from.y as int,
            from.height as int,
        ),
        Direction::Up => r.y + r.height <= from.y && overlap(
            r.x as int,
            r.width as int,
            from.x as int,
            from.width as int,
        ),
        Direction::Down => r.y >= from.y + from.height && overlap(
            r.x as int,
            r.width as int,
            from.x as int,
            from.width as int,
        ),
    }
}

/// How many cells lie between the focused pane and one beyond it.
pub open spec fn gap(direction: Direction, from: Rect, r: Rect) -> int {
    match direction {
        Direction::Left => from.x - (r.x + r.width),
        Direction::Right => r.x - (from.x + from.width),
        Direction::Up => from.y - (r.y + r.height),
        Direction::Down => r.y - (from.y + from.height),
    }
}

/// Whether the pane at `i` is the first one of the given terminal.
pub open spec fn first_of(list: Seq<(Seq<char>, Rect)>, id: Seq<char>, i: int) -> bool {
    &&& 0 <= i < list.len()
    &&& list[i].0 == id
    &&& forall|j: int| 0 <= j < i ==> (#[trigger] list[j]).0 != id
}

/// Whether the focus can move to the pane at `i`.
pub open spec fn candidate(
    list: Seq<(Seq<char>, Rect)>,
    focused: Seq<char>,
    from: Rect,
    direction: Direction,
    i: int,
) -> bool {
    0 <= i < list.len() && list[i].0 != focused && beyond(direction, from, list[i].1)
}

/// Whether the pane at `i` is the nearest one that the focus can move to, and
/// the first of those that are equally near.
pub open spec fn nearest(
    list: Seq<(Seq<char>, Rect)>,
    focused: Seq<char>,
    from: Rect,
    direction: Direction,
    i: int,
) -> bool {
    &&& candidate(list, focused, from, direction, i)
    &&& forall|j: int| #[trigger]
        candidate(list, focused, from, direction, j) ==> {
            &&& gap(direction, from, list[i].1) <= gap(direction, from, list[j].1)
            &&& j < i ==> gap(direction, from, list[i].1) < gap(direction, from, list[j].1)
        }
}

/// Where the focus goes: to the nearest pane in a direction, or nowhere.
pub open spec fn focus_moves(
    list: Seq<(Seq<char>, Rect)>,
    focused: Seq<char>,
    from: Rect,
    direction: Direction,
    now: Seq<char>,
) -> bool {
    if exists|i: int| candidate(list, focused, from, direction, i) {
        exists|i: int| #[trigger] nearest(list, focused, from, direction, i) && now == list[i].0
    } else {
        now == focused
    }
}

/// Whether a function takes every argument and always gives the same result.
pub open spec fn is_cut<F: Fn(u16, u32) -> u16>(f: F) -> bool {
    &&& forall|whole: u16, ratio: u32| #[trigger] f.requires((whole, ratio))
    &&& forall|whole: u16, ratio: u32, a: u16, b: u16| #[trigger]
        f.ensures((whole, ratio), a) && #[trigger] f.ensures((whole, ratio), b) ==> a == b
}

/// The mathematical function that an executable one computes.
pub open spec fn cut_of<F: Fn(u16, u32) -> u16>(f: F) -> spec_fn(u16, u32) -> u16 {
    |whole: u16, ratio: u32| choose|cells: u16| f.ensures((whole, ratio), cells)
}

/// Whether a function takes every argument and always gives the same result.
pub open spec fn is_adjustment<F: Fn(u32, bool) -> u32>(f: F) -> bool {
    &&& forall|ratio: u32, grow: bool| #[trigger] f.requires((ratio, grow))
    &&& forall|ratio: u32, grow: bool, a: u32, b: u32| #[trigger]
        f.ensures((ratio, grow), a) && #[trigger] f.ensures((ratio, grow), b) ==> a == b
}

/// The mathematical function that an executable one computes.
pub open spec fn adjustment_of<F: Fn(u32, bool) -> u32>(f: F) -> spec_fn(u32, bool) -> u32 {
    |ratio: u32, grow: bool| choose|changed: u32| f.ensures((ratio, grow), changed)
}

/// The panes that a list of names and places stands for.
pub open spec fn pane_list(list: Seq<(String, Rect)>) -> Seq<(Seq<char>, Rect)> {
    Seq::new(list.len(), |i: int| (list[i].0@, list[i].1))
}

impl PaneLayout {
    /// The focus is always on a pane of the tree.
    pub closed spec fn wf(&self) -> bool {
        holds(self@.root, self@.focused)
    }

    /// The focus is on a pane.
    pub proof fn lemma_wf(&self)
        requires
            self.wf(),
        ensures
            holds(self@.root, self@.focused),
    {
    }

    /// One pane, which has the focus.
    pub fn new(terminal_id: String) -> (layout: Self)
        ensures
            layout.wf(),
            layout@.root == Tree::Leaf(terminal_id@),
            layout@.focused == terminal_id@,
    {
        let focused = terminal_id.clone();
        Self { root: LayoutNode::Leaf { terminal_id }, focused }
    }

    /// The terminal whose pane has the focus.
    pub fn focused_terminal(&self) -> (id: &str)
        ensures
            id@ == self@.focused,
    {
        self.focused.as_str()
    }

    /// Every pane with its place in an area.
    pub fn compute_rects<F: Fn(u16, u32) -> u16>(&self, area: Rect, cut: &F) -> (out: Vec<
        (String, Rect),
    >)
        requires
            is_cut(*cut),
            splits_fit(self@.root, area, cut_of(*cut)),
        ensures
            pane_list(out@) == panes(self@.root, area, cut_of(*cut)),
    {
        let mut out: Vec<(String, Rect)> = Vec::new();
        Self::collect_rects(&self.root, area, cut, &mut out);
        assert(pane_list(out@) =~= panes(self@.root, area, cut_of(*cut)));
        out
    }

    fn collect_rects<F: Fn(u16, u32) -> u16>(
        node: &LayoutNode,
        area: Rect,
        cut: &F,
        out: &mut Vec<(String, Rect)>,
    )
        requires
            is_cut(*cut),
            splits_fit(tree_of(*node), area, cut_of(*cut)),
        ensures
            pane_list(final(out)@) == pane_list(old(out)@) + panes(
                tree_of(*node),
                area,
                cut_of(*cut),
            ),
        decreases node,
    {
        match node {
            LayoutNode::Leaf { terminal_id } => {
                out.push((terminal_id.clone(), area));
                assert(pane_list(out@) =~= pane_list(old(out)@).push((terminal_id@, area)));
            },
            LayoutNode::Split { direction, ratio, first, second } => {
                let whole: u16 = match direction {
                    SplitDirection::Vertical => area.width,
                    SplitDirection::Horizontal => area.height,
                };
                let cells: u16 = cut(whole, *ratio);
                assert(cut_of(*cut)(whole, *ratio) == cells);
                let (a, b) = split_rect(area, *direction, cells);
                Self::collect_rects(first, a, cut, out);
                Self::collect_rects(second, b, cut, out);
                assert(pane_list(out@) =~= pane_list(old(out)@) + panes(
                    tree_of(*node),
                    area,
                    cut_of(*cut),
                ));
            },
        }
    }
}

impl PaneLayout {
    /// Splits the focused pane and moves the focus to the new one.
    pub fn split(&mut self, direction: SplitDirection, new_terminal_id: String)
        requires
            old(self).wf(),
        ensures
            final(self).wf(),
            Some(final(self)@.root) == split_leaf(
                old(self)@.root,
                old(self)@.focused,
                direction,
                new_terminal_id@,
            ),
            final(self)@.focused == new_terminal_id@,
    {
        let ghost before = self@;
        let mut root = LayoutNode::Leaf { terminal_id: String::new() };
        std::mem::swap(&mut self.root, &mut root);
        let (root, found) = Self::split_node(
            root,
            self.focused.as_str(),
            direction,
            new_terminal_id.as_str(),
        );
        self.root = root;
        proof {
            lemma_split_finds(before.root, before.focused, direction, new_terminal_id@);
        }
        if found {
            self.focused = new_terminal_id;
        }
    }

    fn split_node(
        node: LayoutNode,
        target: &str,
        direction: SplitDirection,
        new_id: &str,
    ) -> (r: (LayoutNode, bool))
        ensures
            match split_leaf(tree_of(node), target@, direction, new_id@) {
                Some(changed) => r.1 && tree_of(r.0) == changed,
                None => !r.1 && tree_of(r.0) == tree_of(node),
            },
        decreases node,
    {
        match node {
            LayoutNode::Leaf { terminal_id } => {
                if same_text(terminal_id.as_str(), target) {
                    let changed = LayoutNode::Split {
                        direction,
                        ratio: EVEN_SHARE,
                        first: Box::new(LayoutNode::Leaf { terminal_id }),
                        second: Box::new(LayoutNode::Leaf { terminal_id: new_id.to_owned() }),
                    };
                    proof {
                        reveal_with_fuel(tree_of, 2);
                    }
                    (changed, true)
                } else {
                    (LayoutNode::Leaf { terminal_id }, false)
                }
            },
            LayoutNode::Split { direction: d, ratio, first, second } => {
                let (first, found) = Self::split_node(*first, target, direction, new_id);
                let (second, found) = if found {
                    (*second, true)
                } else {
                    Self::split_node(*second, target, direction, new_id)
                };
                let changed = LayoutNode::Split {
                    direction: d,
                    ratio,
                    first: Box::new(first),
                    second: Box::new(second),
                };
                (changed, found)
            },
        }
    }

    /// Closes the focused pane and moves the focus to the first pane of what
    /// takes its place. The last pane stays, and then nothing is returned.
    pub fn close_focused(&mut self) -> (closed: Option<String>)
        requires
            old(self).wf(),
        ensures
            final(self).wf(),
            match remove_leaf(old(self)@.root, old(self)@.focused) {
                Some((root, focused)) => {
                    &&& closed matches Some(id)
                    &&& id@ == old(self)@.focused
                    &&& final(self)@.root == root
                    &&& final(self)@.focused == focused
                },
                None => closed is None && final(self)@ == old(self)@,
            },
            closed is None <==> old(self)@.root is Leaf,
    {
        let ghost before = self@;
        let mut root = LayoutNode::Leaf { terminal_id: String::new() };
        std::mem::swap(&mut self.root, &mut root);
        let (root, heir) = Self::remove_node(root, self.focused.as_str());
        self.root = root;
        proof {
            lemma_remove_finds(before.root, before.focused);
        }
        match heir {
            Some(id) => {
                let closed = self.focused.clone();
                self.focused = id;
                Some(closed)
            },
            None => None,
        }
    }

    fn remove_node(node: LayoutNode, target: &str) -> (r: (LayoutNode, Option<String>))
        ensures
            match remove_leaf(tree_of(node), target@) {
                Some((changed, id)) => {
                    &&& tree_of(r.0) == changed
                    &&& r.1 matches Some(heir)
                    &&& heir@ == id
                },
                None => r.1 is None && tree_of(r.0) == tree_of(node),
            },
        decreases node,
    {
        match node {
            LayoutNode::Leaf { terminal_id } => (LayoutNode::Leaf { terminal_id }, None),
            LayoutNode::Split { direction, ratio, first, second } => {
                if Self::is_leaf(&*first, target) {
                    let heir = Self::first_leaf_id(&*second);
                    return (*second, Some(heir));
                }
                if Self::is_leaf(&*second, target) {
                    let heir = Self::first_leaf_id(&*first);
                    return (*first, Some(heir));
                }
                let (first, heir) = Self::remove_node(*first, target);
                let (second, heir) = match heir {
                    Some(id) => (*second, Some(id)),
                    None => Self::remove_node(*second, target),
                };
                let changed = LayoutNode::Split {
                    direction,
                    ratio,
                    first: Box::new(first),
                    second: Box::new(second),
                };
                (changed, heir)
            },
        }
    }

    fn is_leaf(node: &LayoutNode, id: &str) -> (r: bool)
        ensures
            r == (tree_of(*node) == Tree::Leaf(id@)),
    {
        match node {
            LayoutNode::Leaf { terminal_id } => same_text(terminal_id.as_str(), id),
            LayoutNode::Split { .. } => false,
        }
    }

    fn first_leaf_id(node: &LayoutNode) -> (id: String)
        ensures
            id@ == first_leaf(tree_of(*node)),
        decreases node,
    {
        match node {
            LayoutNode::Leaf { terminal_id } => terminal_id.clone(),
            LayoutNode::Split { first, .. } => Self::first_leaf_id(&**first),
        }
    }

    /// Moves the borders of the splits around the focused pane along an axis.
    /// `adjust` gets a share and whether it is to grow, and gives the new share.
    pub fn resize_focused<F: Fn(u32, bool) -> u32>(&mut self, direction: Direction, adjust: &F)
        requires
            old(self).wf(),
            is_adjustment(*adjust),
        ensures
            final(self).wf(),
            final(self)@.root == resized(
                old(self)@.root,
                old(self)@.focused,
                axis_of(direction),
                grows_first(direction),
                adjustment_of(*adjust),
            ),
            final(self)@.focused == old(self)@.focused,
    {
        let ghost before = self@;
        let axis = match direction {
            Direction::Left | Direction::Right => SplitDirection::Vertical,
            Direction::Up | Direction::Down => SplitDirection::Horizontal,
        };
        let grow_first = match direction {
            Direction::Right | Direction::Down => true,
            Direction::Left | Direction::Up => false,
        };
        let mut root = LayoutNode::Leaf { terminal_id: String::new() };
        std::mem::swap(&mut self.root, &mut root);
        let (root, _) = Self::resize_node(root, self.focused.as_str(), axis, adjust, grow_first);
        self.root = root;
        proof {
            lemma_resize_keeps_leaves(
                before.root,
                before.focused,
                axis,
                grow_first,
                adjustment_of(*adjust),
                before.focused,
            );
        }
    }

    fn resize_node<F: Fn(u32, bool) -> u32>(
        node: LayoutNode,
        target: &str,
        axis: SplitDirection,
        adjust: &F,
        grow_first: bool,
    ) -> (r: (LayoutNode, bool))
        requires
            is_adjustment(*adjust),
        ensures
            r.1 == holds(tree_of(node), target@),
            tree_of(r.0) == resized(
                tree_of(node),
                target@,
                axis,
                grow_first,
                adjustment_of(*adjust),
            ),
        decreases node,
    {
        match node {
            LayoutNode::Leaf { terminal_id } => {
                let found = same_text(terminal_id.as_str(), target);
                (LayoutNode::Leaf { terminal_id }, found)
            },
            LayoutNode::Split { direction, ratio, first, second } => {
                proof {
                    lemma_resize_elsewhere(
                        tree_of(*first),
                        target@,
                        axis,
                        grow_first,
                        adjustment_of(*adjust),
                    );
                    lemma_resize_elsewhere(
                        tree_of(*second),
                        target@,
                        axis,
                        grow_first,
                        adjustment_of(*adjust),
                    );
                }
                let (first, in_first) = Self::resize_node(
                    *first,
                    target,
                    axis,
                    adjust,
                    grow_first,
                );
                let (second, in_second) = if !in_first {
                    Self::resize_node(*second, target, axis, adjust, grow_first)
                } else {
                    (*second, false)
                };
                let mut share: u32 = ratio;
                if (in_first || in_second) && direction == axis {
                    let grow = (in_first && grow_first) || (in_second && !grow_first);
                    share = adjust(ratio, grow);
                    assert(adjustment_of(*adjust)(ratio, grow) == share);
                }
                let changed = LayoutNode::Split {
                    direction,
                    ratio: share,
                    first: Box::new(first),
                    second: Box::new(second),
                };
                (changed, in_first || in_second)
            },
        }
    }

    /// Moves the focus to the nearest pane in a direction, where there is one.
    pub fn navigate<F: Fn(u16, u32) -> u16>(&mut self, direction: Direction, area: Rect, cut: &F)
        requires
            old(self).wf(),
            is_cut(*cut),
            splits_fit(old(self)@.root, area, cut_of(*cut)),
        ensures
            final(self).wf(),
            final(self)@.root == old(self)@.root,
            ({
                let list = panes(old(self)@.root, area, cut_of(*cut));
                let focused = old(self)@.focused;
                exists|at: int|
                    #[trigger] first_of(list, focused, at) && focus_moves(
                        list,
                        focused,
                        list[at].1,
                        direction,
                        final(self)@.focused,
                    )
            }),
    {
        let rects = self.compute_rects(area, cut);
        let ghost list = panes(self@.root, area, cut_of(*cut));
        let ghost focused = self@.focused;
        proof {
            lemma_panes_hold_the_leaves(self@.root, area, cut_of(*cut));
            lemma_held_is_a_leaf(self@.root, focused);
        }
        assert(list == pane_list(rects@));
        let mut at: usize = 0;
        while at < rects.len() && !same_text(rects[at].0.as_str(), self.focused.as_str())
            invariant
                at <= rects.len(),
                list == pane_list(rects@),
                focused == self.focused@,
                forall|j: int| 0 <= j < at ==> (#[trigger] list[j]).0 != focused,
            decreases rects.len() - at,
        {
            at = at + 1;
        }
        if at == rects.len() {
            assert(false) by {
                let i = choose|i: int|
                    0 <= i < leaves(self@.root).len() && leaves(self@.root)[i] == focused;
                assert(list[i].0 == leaves(self@.root)[i]);
            }
            return;
        }
        let from: Rect = rects[at].1;
        let ghost from_rect = list[at as int].1;
        let mut best: Option<usize> = None;
        let mut i: usize = 0;
        while i < rects.len()
            invariant
                i <= rects.len(),
                list == pane_list(rects@),
                focused == self.focused@,
                from == from_rect,
                match best {
                    None => forall|j: int|
                        0 <= j < i ==> !#[trigger] candidate(list, focused, from, direction, j),
                    Some(b) => {
                        &&& b < i
                        &&& candidate(list, focused, from, direction, b as int)
                        &&& forall|j: int|
                            0 <= j < i && #[trigger] candidate(list, focused, from, direction, j)
                                ==> {
                                &&& gap(direction, from, list[b as int].1) <= gap(
                                    direction,
                                    from,
                                    list[j].1,
                                )
                                &&& j < b ==> gap(direction, from, list[b as int].1) < gap(
                                    direction,
                                    from,
                                    list[j].1,
                                )
                            }
                    },
                },
            decreases rects.len() - i,
        {
            let r: Rect = rects[i].1;
            assert(list[i as int] == (rects@[i as int].0@, r));
            if !same_text(rects[i].0.as_str(), self.focused.as_str()) && lies_beyond(
                direction,
                from,
                r,
            ) {
                assert(candidate(list, focused, from, direction, i as int));
                match best {
                    None => {
                        best = Some(i);
                    },
                    Some(b) => {
                        assert(list[b as int] == (rects@[b as int].0@, rects@[b as int].1));
                        if distance(direction, from, r) < distance(direction, from, rects[b].1) {
                            best = Some(i);
                        }
                    },
                }
            }
            i = i + 1;
        }
        assert(first_of(list, focused, at as int));
        if let Some(b) = best {
            proof {
                assert(nearest(list, focused, from, direction, b as int));
                lemma_panes_hold_the_leaves(self@.root, area, cut_of(*cut));
                assert(list[b as int].0 == leaves(self@.root)[b as int]);
                lemma_leaf_is_held(self@.root, b as int);
            }
            self.focused = rects[b].0.clone();
        }
    }
}

fn lies_beyond(direction: Direction, from: Rect, r: Rect) -> (yes: bool)
    ensures
        yes == beyond(direction, from, r),
{
    match direction {
        Direction::Left => r.x as u32 + r.width as u32 <= from.x as u32 && ranges_overlap(
            r.y,
            r.height,
            from.y,
            from.height,
        ),
        Direction::Right => r.x as u32 >= from.x as u32 + from.width as u32 && ranges_overlap(
            r.y,
            r.height,
            from.y,
            from.height,
        ),
        Direction::Up => r.y as u32 + r.height as u32 <= from.y as u32 && ranges_overlap(
            r.x,
            r.width,
            from.x,
            from.width,
        ),
        Direction::Down => r.y as u32 >= from.y as u32 + from.height as u32 && ranges_overlap(
            r.x,
            r.width,
            from.x,
            from.width,
        ),
    }
}

fn distance(direction: Direction, from: Rect, r: Rect) -> (cells: i32)
    ensures
        cells == gap(direction, from, r),
{
    match direction {
        Direction::Left => from.x as i32 - (r.x as i32 + r.width as i32),
        Direction::Right => r.x as i32 - (from.x as i32 + from.width as i32),
        Direction::Up => from.y as i32 - (r.y as i32 + r.height as i32),
        Direction::Down => r.y as i32 - (from.y as i32 + from.height as i32),
    }
}

/// Whether two ranges of cells, given by start and length, overlap.
pub fn ranges_overlap(a_start: u16, a_len: u16, b_start: u16, b_len: u16) -> (yes: bool)
    ensures
        yes == overlap(a_start as int, a_len as int, b_start as int, b_len as int),
{
    (a_start as u32) < b_start as u32 + b_len as u32 && (b_start as u32) < a_start as u32
        + a_len as u32
}

/// Divides an area. The first half gets `cells` columns or rows.
pub fn split_rect(area: Rect, dir: SplitDirection, cells: u16) -> (parts: (Rect, Rect))
    requires
        origin(area, dir) + cells <= u16::MAX,
    ensures
        parts.0 == first_part(area, dir, cells),
        parts.1 == second_part(area, dir, cells),
{
    match dir {
        SplitDirection::Vertical => {
            let rest: u16 = area.width.saturating_sub(cells);
            (
                Rect { x: area.x, y: area.y, width: cells, height: area.height },
                Rect { x: area.x + cells, y: area.y, width: rest, height: area.height },
            )
        },
        SplitDirection::Horizontal => {
            let rest: u16 = area.height.saturating_sub(cells);
            (
                Rect { x: area.x, y: area.y, width: area.width, height: cells },
                Rect { x: area.x, y: area.y + cells, width: area.width, height: rest },
            )
        },
    }
}

/// A terminal is held by a tree if and only if it is one of its leaves.
proof fn lemma_held_is_a_leaf(tree: Tree, id: Seq<char>)
    ensures
        holds(tree, id) == leaves(tree).contains(id),
    decreases tree,
{
    match tree {
        Tree::Leaf(leaf) => {
            assert(leaves(tree)[0] == leaf);
        },
        Tree::Split { first, second, .. } => {
            lemma_held_is_a_leaf(*first, id);
            lemma_held_is_a_leaf(*second, id);
            let a = leaves(*first);
            let b = leaves(*second);
            if a.contains(id) {
                let i = a.index_of(id);
                assert((a + b)[i] == id);
            }
            if b.contains(id) {
                let i = b.index_of(id);
                assert((a + b)[a.len() + i] == id);
            }
            if (a + b).contains(id) {
                let i = (a + b).index_of(id);
                if i < a.len() {
                    assert(a[i] == id);
                } else {
                    assert(b[i - a.len()] == id);
                }
            }
        },
    }
}

proof fn lemma_leaf_is_held(tree: Tree, i: int)
    requires
        0 <= i < leaves(tree).len(),
    ensures
        holds(tree, leaves(tree)[i]),
{
    lemma_held_is_a_leaf(tree, leaves(tree)[i]);
}

/// There is one pane for each leaf, in the order of the leaves.
pub proof fn lemma_panes_hold_the_leaves(tree: Tree, area: Rect, cut: spec_fn(u16, u32) -> u16)
    ensures
        panes(tree, area, cut).len() == leaves(tree).len(),
        forall|i: int|
            0 <= i < leaves(tree).len() ==> (#[trigger] panes(tree, area, cut)[i]).0 == leaves(
                tree,
            )[i],
    decreases tree,
{
    match tree {
        Tree::Leaf(_) => {},
        Tree::Split { direction, ratio, first, second } => {
            let cells = cut(extent(area, direction), ratio);
            lemma_panes_hold_the_leaves(*first, first_part(area, direction, cells), cut);
            lemma_panes_hold_the_leaves(*second, second_part(area, direction, cells), cut);
        },
    }
}

proof fn lemma_split_finds(
    tree: Tree,
    target: Seq<char>,
    direction: SplitDirection,
    new_id: Seq<char>,
)
    ensures
        split_leaf(tree, target, direction, new_id) is Some <==> holds(tree, target),
        split_leaf(tree, target, direction, new_id) matches Some(changed) ==> {
            &&& changed is Split
            &&& holds(changed, new_id)
            &&& leaves(changed).len() == leaves(tree).len() + 1
        },
    decreases tree,
{
    match tree {
        Tree::Leaf(_) => {
            reveal_with_fuel(leaves, 2);
            reveal_with_fuel(holds, 2);
        },
        Tree::Split { first, second, .. } => {
            lemma_split_finds(*first, target, direction, new_id);
            lemma_split_finds(*second, target, direction, new_id);
        },
    }
}

proof fn lemma_first_leaf_is_held(tree: Tree)
    ensures
        holds(tree, first_leaf(tree)),
    decreases tree,
{
    match tree {
        Tree::Leaf(_) => {},
        Tree::Split { first, .. } => {
            lemma_first_leaf_is_held(*first);
        },
    }
}

proof fn lemma_leaf_alone(tree: Tree, id: Seq<char>)
    ensures
        tree is Leaf ==> leaves(tree).len() == 1,
        tree is Leaf && holds(tree, id) <==> tree == Tree::Leaf(id),
{
}

proof fn lemma_remove_finds(tree: Tree, target: Seq<char>)
    ensures
        remove_leaf(tree, target) is Some <==> tree is Split && holds(tree, target),
        remove_leaf(tree, target) matches Some((changed, id)) ==> holds(changed, id),
    decreases tree,
{
    match tree {
        Tree::Leaf(_) => {},
        Tree::Split { first, second, .. } => {
            lemma_remove_finds(*first, target);
            lemma_remove_finds(*second, target);
            lemma_first_leaf_is_held(*first);
            lemma_first_leaf_is_held(*second);
            lemma_leaf_alone(*first, target);
            lemma_leaf_alone(*second, target);
        },
    }
}

proof fn lemma_resize_elsewhere(
    tree: Tree,
    target: Seq<char>,
    axis: SplitDirection,
    grow_first: bool,
    adjust: spec_fn(u32, bool) -> u32,
)
    ensures
        !holds(tree, target) ==> resized(tree, target, axis, grow_first, adjust) == tree,
{
}

proof fn lemma_resize_keeps_leaves(
    tree: Tree,
    target: Seq<char>,
    axis: SplitDirection,
    grow_first: bool,
    adjust: spec_fn(u32, bool) -> u32,
    id: Seq<char>,
)
    ensures
        leaves(resized(tree, target, axis, grow_first, adjust)) == leaves(tree),
        holds(resized(tree, target, axis, grow_first, adjust), id) == holds(tree, id),
    decreases tree,
{
    match tree {
        Tree::Leaf(_) => {},
        Tree::Split { first, second, .. } => {
            lemma_resize_keeps_leaves(*first, target, axis, grow_first, adjust, id);
            lemma_resize_keeps_leaves(*second, target, axis, grow_first, adjust, id);
        },
    }
}

/// The terminals of a tree after one of them has been put behind the first
/// occurrence of another.
pub open spec fn put_behind(list: Seq<Seq<char>>, target: Seq<char>, new_id: Seq<char>) -> Seq<
    Seq<char>,
>
    decreases list.len(),
{
    if list.len() == 0 {
        list
    } else if list[0] == target {
        seq![target, new_id] + list.skip(1)
    } else {
        seq![list[0]] + put_behind(list.skip(1), target, new_id)
    }
}

proof fn lemma_put_behind_concat(
    a: Seq<Seq<char>>,
    b: Seq<Seq<char>>,
    target: Seq<char>,
    new_id: Seq<char>,
)
    ensures
        a.contains(target) ==> put_behind(a + b, target, new_id) == put_behind(a, target, new_id)
            + b,
        !a.contains(target) ==> put_behind(a + b, target, new_id) == a + put_behind(
            b,
            target,
            new_id,
        ),
    decreases a.len(),
{
    if a.len() == 0 {
        assert(a + b =~= b);
        assert(a + put_behind(b, target, new_id) =~= put_behind(b, target, new_id));
    } else {
        let rest = a.skip(1);
        assert((a + b).skip(1) =~= rest + b);
        lemma_put_behind_concat(rest, b, target, new_id);
        if a[0] == target {
            assert(put_behind(a + b, target, new_id) =~= put_behind(a, target, new_id) + b);
        } else {
            if a.contains(target) {
                let i = a.index_of(target);
                assert(rest[i - 1] == target);
                assert(put_behind(a + b, target, new_id) =~= put_behind(a, target, new_id) + b);
            } else {
                if rest.contains(target) {
                    let i = rest.index_of(target);
                    assert(a[i + 1] == target);
                }
                assert(put_behind(a + b, target, new_id) =~= a + put_behind(b, target, new_id));
            }
        }
    }
}

/// A split puts the new pane right behind the pane that it divides and leaves
/// every other pane where it was in the order.
pub proof fn split_adds_one_pane(
    tree: Tree,
    target: Seq<char>,
    direction: SplitDirection,
    new_id: Seq<char>,
)
    requires
        holds(tree, target),
    ensures
        split_leaf(tree, target, direction, new_id) matches Some(changed) && leaves(changed)
            == put_behind(leaves(tree), target, new_id),
    decreases tree,
{
    lemma_split_finds(tree, target, direction, new_id);
    match tree {
        Tree::Leaf(id) => {
            reveal_with_fuel(leaves, 2);
            let changed = split_leaf(tree, target, direction, new_id)->0;
            assert(leaves(changed) =~= put_behind(leaves(tree), target, new_id));
        },
        Tree::Split { first, second, .. } => {
            lemma_held_is_a_leaf(*first, target);
            lemma_held_is_a_leaf(*second, target);
            lemma_split_finds(*first, target, direction, new_id);
            lemma_split_finds(*second, target, direction, new_id);
            lemma_put_behind_concat(leaves(*first), leaves(*second), target, new_id);
            if holds(*first, target) {
                split_adds_one_pane(*first, target, direction, new_id);
            } else {
                split_adds_one_pane(*second, target, direction, new_id);
            }
        },
    }
}

/// A list of panes in which one is divided evenly between its own terminal and a
/// new one.
pub open spec fn divided(
    list: Seq<(Seq<char>, Rect)>,
    i: int,
    direction: SplitDirection,
    new_id: Seq<char>,
    cut: spec_fn(u16, u32) -> u16,
) -> Seq<(Seq<char>, Rect)> {
    let (id, place) = list[i];
    let cells = cut(extent(place, direction), EVEN_SHARE);
    list.take(i) + seq![
        (id, first_part(place, direction, cells)),
        (new_id, second_part(place, direction, cells)),
    ] + list.skip(i + 1)
}

proof fn lemma_divided_concat(
    a: Seq<(Seq<char>, Rect)>,
    b: Seq<(Seq<char>, Rect)>,
    i: int,
    direction: SplitDirection,
    new_id: Seq<char>,
    cut: spec_fn(u16, u32) -> u16,
)
    requires
        0 <= i < a.len() + b.len(),
    ensures
        divided(a + b, i, direction, new_id, cut) == if i < a.len() {
            divided(a, i, direction, new_id, cut) + b
        } else {
            a + divided(b, i - a.len(), direction, new_id, cut)
        },
{
    if i < a.len() {
        assert((a + b).take(i) =~= a.take(i));
        assert((a + b).skip(i + 1) =~= a.skip(i + 1) + b);
        assert(divided(a + b, i, direction, new_id, cut) =~= divided(a, i, direction, new_id, cut)
            + b);
    } else {
        let k = i - a.len();
        assert((a + b).take(i) =~= a + b.take(k));
        assert((a + b).skip(i + 1) =~= b.skip(k + 1));
        assert(divided(a + b, i, direction, new_id, cut) =~= a + divided(
            b,
            k,
            direction,
            new_id,
            cut,
        ));
    }
}

/// A split divides the place of one pane between that pane and the new one, and
/// leaves every other pane in its place.
pub proof fn split_divides_one_pane(
    tree: Tree,
    target: Seq<char>,
    direction: SplitDirection,
    new_id: Seq<char>,
    area: Rect,
    cut: spec_fn(u16, u32) -> u16,
    i: int,
)
    requires
        first_of(panes(tree, area, cut), target, i),
    ensures
        split_leaf(tree, target, direction, new_id) matches Some(changed) && panes(
            changed,
            area,
            cut,
        ) == divided(panes(tree, area, cut), i, direction, new_id, cut),
    decreases tree,
{
    let all = panes(tree, area, cut);
    match tree {
        Tree::Leaf(_) => {
            reveal_with_fuel(panes, 2);
            let changed = split_leaf(tree, target, direction, new_id)->0;
            assert(panes(changed, area, cut) =~= divided(all, i, direction, new_id, cut));
        },
        Tree::Split { direction: along, ratio, first, second } => {
            let cells = cut(extent(area, along), ratio);
            let a = first_part(area, along, cells);
            let b = second_part(area, along, cells);
            let pa = panes(*first, a, cut);
            let pb = panes(*second, b, cut);
            assert(all == pa + pb);
            lemma_panes_hold_the_leaves(*first, a, cut);
            lemma_held_is_a_leaf(*first, target);
            lemma_split_finds(*first, target, direction, new_id);
            if i < pa.len() {
                assert(all[i] == pa[i]);
                assert(leaves(*first)[i] == target);
                assert forall|j: int| 0 <= j < i implies (#[trigger] pa[j]).0 != target by {
                    assert(all[j] == pa[j]);
                }
                split_divides_one_pane(*first, target, direction, new_id, a, cut, i);
                lemma_divided_concat(pa, pb, i, direction, new_id, cut);
            } else {
                if holds(*first, target) {
                    let j = leaves(*first).index_of(target);
                    assert(pa[j].0 == target);
                    assert(all[j] == pa[j]);
                }
                let k = i - pa.len();
                assert(all[i] == pb[k]);
                assert forall|j: int| 0 <= j < k implies (#[trigger] pb[j]).0 != target by {
                    assert(all[pa.len() + j] == pb[j]);
                }
                split_divides_one_pane(*second, target, direction, new_id, b, cut, k);
                lemma_divided_concat(pa, pb, i, direction, new_id, cut);
            }
        },
    }
}

/// Closing the pane that a split has just made gives back the tree and the
/// focus from before. The new terminal must not have been there already.
pub proof fn close_undoes_split(
    tree: Tree,
    focused: Seq<char>,
    direction: SplitDirection,
    new_id: Seq<char>,
)
    requires
        holds(tree, focused),
        !holds(tree, new_id),
    ensures
        split_leaf(tree, focused, direction, new_id) matches Some(changed) && remove_leaf(
            changed,
            new_id,
        ) == Some((tree, focused)),
    decreases tree,
{
    lemma_split_finds(tree, focused, direction, new_id);
    match tree {
        Tree::Leaf(_) => {
            lemma_leaf_alone(tree, new_id);
            reveal_with_fuel(first_leaf, 2);
        },
        Tree::Split { first, second, .. } => {
            lemma_split_finds(*first, focused, direction, new_id);
            lemma_split_finds(*second, focused, direction, new_id);
            lemma_leaf_alone(*first, new_id);
            lemma_leaf_alone(*second, new_id);
            if holds(*first, focused) {
                close_undoes_split(*first, focused, direction, new_id);
            } else {
                close_undoes_split(*second, focused, direction, new_id);
                lemma_remove_finds(*first, new_id);
            }
        },
    }
}

/// Whether one list is another without one occurrence of an item.
pub open spec fn without_one(list: Seq<Seq<char>>, item: Seq<char>, rest: Seq<Seq<char>>) -> bool {
    exists|i: int| 0 <= i < list.len() && list[i] == item && rest == #[trigger] list.remove(i)
}

/// Closing a pane takes that pane away, leaves all others in their order, and
/// leaves the focus on one of them.
pub proof fn close_removes_one_pane(tree: Tree, focused: Seq<char>)
    requires
        holds(tree, focused),
        tree is Split,
    ensures
        remove_leaf(tree, focused) matches Some((changed, heir)) && holds(changed, heir)
            && without_one(leaves(tree), focused, leaves(changed)),
{
    lemma_remove_finds(tree, focused);
    lemma_remove_takes_one(tree, focused);
}

proof fn lemma_remove_takes_one(tree: Tree, target: Seq<char>)
    ensures
        remove_leaf(tree, target) matches Some((changed, _)) ==> without_one(
            leaves(tree),
            target,
            leaves(changed),
        ),
    decreases tree,
{
    if let Tree::Split { first, second, .. } = tree {
        reveal_with_fuel(leaves, 2);
        let a = leaves(*first);
        let b = leaves(*second);
        let n = a.len() as int;
        if *first == Tree::Leaf(target) {
            assert((a + b).remove(0) =~= b);
            assert((a + b)[0] == target);
        } else if *second == Tree::Leaf(target) {
            assert((a + b).remove(n) =~= a);
            assert((a + b)[n] == target);
        } else if let Some((changed, _)) = remove_leaf(*first, target) {
            lemma_remove_takes_one(*first, target);
            let i = choose|i: int|
                0 <= i < a.len() && a[i] == target && leaves(changed) == #[trigger] a.remove(i);
            assert((a + b).remove(i) =~= a.remove(i) + b);
            assert((a + b)[i] == target);
        } else if let Some((changed, _)) = remove_leaf(*second, target) {
            lemma_remove_takes_one(*second, target);
            let i = choose|i: int|
                0 <= i < b.len() && b[i] == target && leaves(changed) == #[trigger] b.remove(i);
            assert((a + b).remove(n + i) =~= a + b.remove(i));
            assert((a + b)[n + i] == target);
        }
    }
}

/// A resize moves borders only: the panes and their order stay.
pub proof fn resize_keeps_the_panes(
    tree: Tree,
    focused: Seq<char>,
    direction: Direction,
    adjust: spec_fn(u32, bool) -> u32,
)
    ensures
        leaves(resized(tree, focused, axis_of(direction), grows_first(direction), adjust))
            == leaves(tree),
{
    lemma_resize_keeps_leaves(
        tree,
        focused,
        axis_of(direction),
        grows_first(direction),
        adjust,
        focused,
    );
}

/// No two panes are both the nearest: the focus has one place to go.
pub proof fn nearest_is_unique(
    list: Seq<(Seq<char>, Rect)>,
    focused: Seq<char>,
    from: Rect,
    direction: Direction,
    i: int,
    j: int,
)
    requires
        nearest(list, focused, from, direction, i),
        nearest(list, focused, from, direction, j),
    ensures
        i == j,
{
}

/// Where the area has room for every cell and no share exceeds the whole, every
/// split fits.
pub proof fn bounded_cuts_fit(
    tree: Tree,
    area: Rect,
    cut: spec_fn(u16, u32) -> u16,
    fair: spec_fn(u32) -> bool,
)
    requires
        area_fits(area),
        shares_in(tree, fair),
        never_exceeds(cut, fair),
    ensures
        splits_fit(tree, area, cut),
    decreases tree,
{
    match tree {
        Tree::Leaf(_) => {},
        Tree::Split { direction, ratio, first, second } => {
            let cells = cut(extent(area, direction), ratio);
            bounded_cuts_fit(*first, first_part(area, direction, cells), cut, fair);
            bounded_cuts_fit(*second, second_part(area, direction, cells), cut, fair);
        },
    }
}

/// The panes tile the area: every cell of the area lies in a pane, no pane
/// reaches out of the area, and no cell lies in two panes.
pub proof fn panes_tile_the_area(
    tree: Tree,
    area: Rect,
    cut: spec_fn(u16, u32) -> u16,
    fair: spec_fn(u32) -> bool,
    col: int,
    row: int,
)
    requires
        area_fits(area),
        shares_in(tree, fair),
        never_exceeds(cut, fair),
    ensures
        covers(area, col, row) <==> exists|i: int|
            0 <= i < panes(tree, area, cut).len() && covers(
                (#[trigger] panes(tree, area, cut)[i]).1,
                col,
                row,
            ),
        forall|i: int, j: int|
            0 <= i < panes(tree, area, cut).len() && 0 <= j < panes(tree, area, cut).len()
                && covers((#[trigger] panes(tree, area, cut)[i]).1, col, row) && covers(
                (#[trigger] panes(tree, area, cut)[j]).1,
                col,
                row,
            ) ==> i == j,
    decreases tree,
{
    let all = panes(tree, area, cut);
    match tree {
        Tree::Leaf(_) => {
            if covers(area, col, row) {
                assert(covers(all[0].1, col, row));
            }
        },
        Tree::Split { direction, ratio, first, second } => {
            let cells = cut(extent(area, direction), ratio);
            let a = first_part(area, direction, cells);
            let b = second_part(area, direction, cells);
            panes_tile_the_area(*first, a, cut, fair, col, row);
            panes_tile_the_area(*second, b, cut, fair, col, row);
            let pa = panes(*first, a, cut);
            let pb = panes(*second, b, cut);
            assert(all == pa + pb);
            assert(covers(area, col, row) <==> covers(a, col, row) || covers(b, col, row));
            assert(!(covers(a, col, row) && covers(b, col, row)));
            if covers(a, col, row) {
                let i = choose|i: int| 0 <= i < pa.len() && covers((#[trigger] pa[i]).1, col, row);
                assert(all[i] == pa[i]);
            }
            if covers(b, col, row) {
                let i = choose|i: int| 0 <= i < pb.len() && covers((#[trigger] pb[i]).1, col, row);
                assert(all[pa.len() + i] == pb[i]);
            }
            assert forall|i: int|
                0 <= i < all.len() && covers((#[trigger] all[i]).1, col, row) implies if i
                < pa.len() {
                covers(a, col, row) && covers(pa[i].1, col, row)
            } else {
                covers(b, col, row) && covers(pb[i - pa.len()].1, col, row)
            } by {
                if i < pa.len() {
                    assert(all[i] == pa[i]);
                } else {
                    assert(all[i] == pb[i - pa.len()]);
                }
            }
        },
    }
}

/// The number of cells in an area.
pub open spec fn cells_in(area: Rect) -> nat {
    area.width as nat * area.height as nat
}

/// The number of cells in all panes of a list together.
pub open spec fn all_cells(list: Seq<(Seq<char>, Rect)>) -> nat
    decreases list.len(),
{
    if list.len() == 0 {
        0
    } else {
        all_cells(list.drop_last()) + cells_in(list.last().1)
    }
}

proof fn lemma_all_cells_concat(a: Seq<(Seq<char>, Rect)>, b: Seq<(Seq<char>, Rect)>)
    ensures
        all_cells(a + b) == all_cells(a) + all_cells(b),
    decreases b.len(),
{
    if b.len() == 0 {
        assert(a + b =~= a);
    } else {
        assert((a + b).drop_last() =~= a + b.drop_last());
        lemma_all_cells_concat(a, b.drop_last());
    }
}

/// The panes together have as many cells as the area.
pub proof fn panes_have_the_cells_of_the_area(
    tree: Tree,
    area: Rect,
    cut: spec_fn(u16, u32) -> u16,
    fair: spec_fn(u32) -> bool,
)
    requires
        shares_in(tree, fair),
        never_exceeds(cut, fair),
    ensures
        all_cells(panes(tree, area, cut)) == cells_in(area),
    decreases tree,
{
    match tree {
        Tree::Leaf(_) => {
            reveal_with_fuel(all_cells, 2);
            assert(panes(tree, area, cut).drop_last() =~= Seq::empty());
        },
        Tree::Split { direction, ratio, first, second } => {
            let cells = cut(extent(area, direction), ratio);
            let a = first_part(area, direction, cells);
            let b = second_part(area, direction, cells);
            panes_have_the_cells_of_the_area(*first, a, cut, fair);
            panes_have_the_cells_of_the_area(*second, b, cut, fair);
            lemma_all_cells_concat(panes(*first, a, cut), panes(*second, b, cut));
            let w = area.width as int;
            let h = area.height as int;
            let c = cells as int;
            assert(c * h + (w - c) * h == w * h) by (nonlinear_arith);
            assert(w * c + w * (h - c) == w * h) by (nonlinear_arith);
        },
    }
}

/// There is at least one pane, one for each terminal of the tree, and the focus
/// is on one of them.
pub proof fn focus_has_a_pane(
    tree: Tree,
    focused: Seq<char>,
    area: Rect,
    cut: spec_fn(u16, u32) -> u16,
)
    requires
        holds(tree, focused),
    ensures
        panes(tree, area, cut).len() == leaves(tree).len(),
        panes(tree, area, cut).len() > 0,
        exists|i: int|
            0 <= i < panes(tree, area, cut).len() && (#[trigger] panes(tree, area, cut)[i]).0
                == focused,
{
    lemma_panes_hold_the_leaves(tree, area, cut);
    lemma_held_is_a_leaf(tree, focused);
    let i = leaves(tree).index_of(focused);
    assert(panes(tree, area, cut)[i].0 == focused);
}

/// Splitting and closing panes leaves every share a fair one, and so does a
/// resize by an adjustment that makes fair shares of fair shares. So what holds
/// of the even share and of all shares that adjustments give holds of every
/// share.
pub proof fn shares_stay_fair(
    tree: Tree,
    focused: Seq<char>,
    direction: SplitDirection,
    new_id: Seq<char>,
    axis: SplitDirection,
    grow_first: bool,
    adjust: spec_fn(u32, bool) -> u32,
    fair: spec_fn(u32) -> bool,
)
    requires
        shares_in(tree, fair),
        fair(EVEN_SHARE),
    ensures
        split_leaf(tree, focused, direction, new_id) matches Some(changed) ==> shares_in(
            changed,
            fair,
        ),
        remove_leaf(tree, focused) matches Some((changed, _)) ==> shares_in(changed, fair),
        stays_fair(adjust, fair) ==> shares_in(
            resized(tree, focused, axis, grow_first, adjust),
            fair,
        ),
    decreases tree,
{
    match tree {
        Tree::Leaf(_) => {
            reveal_with_fuel(shares_in, 2);
        },
        Tree::Split { first, second, .. } => {
            shares_stay_fair(
                *first,
                focused,
                direction,
                new_id,
                axis,
                grow_first,
                adjust,
                fair,
            );
            shares_stay_fair(
                *second,
                focused,
                direction,
                new_id,
                axis,
                grow_first,
                adjust,
                fair,
            );
        },
    }
}

/// The place of the first pane of a terminal.
pub open spec fn place_of(
    tree: Tree,
    id: Seq<char>,
    area: Rect,
    cut: spec_fn(u16, u32) -> u16,
) -> Rect
    decreases tree,
{
    match tree {
        Tree::Leaf(_) => area,
        Tree::Split { direction, ratio, first, second } => {
            let cells = cut(extent(area, direction), ratio);
            if holds(*first, id) {
                place_of(*first, id, first_part(area, direction, cells), cut)
            } else {
                place_of(*second, id, second_part(area, direction, cells), cut)
            }
        },
    }
}

/// The place of a terminal is that of its first pane.
pub proof fn place_is_the_first_pane(
    tree: Tree,
    id: Seq<char>,
    area: Rect,
    cut: spec_fn(u16, u32) -> u16,
    i: int,
)
    requires
        first_of(panes(tree, area, cut), id, i),
    ensures
        panes(tree, area, cut)[i].1 == place_of(tree, id, area, cut),
    decreases tree,
{
    match tree {
        Tree::Leaf(_) => {},
        Tree::Split { direction, ratio, first, second } => {
            let cells = cut(extent(area, direction), ratio);
            let a = first_part(area, direction, cells);
            let b = second_part(area, direction, cells);
            let pa = panes(*first, a, cut);
            let pb = panes(*second, b, cut);
            let all = panes(tree, area, cut);
            assert(all == pa + pb);
            lemma_panes_hold_the_leaves(*first, a, cut);
            lemma_held_is_a_leaf(*first, id);
            if i < pa.len() {
                assert(all[i] == pa[i]);
                assert(leaves(*first)[i] == id);
                assert forall|j: int| 0 <= j < i implies (#[trigger] pa[j]).0 != id by {
                    assert(all[j] == pa[j]);
                }
                place_is_the_first_pane(*first, id, a, cut, i);
            } else {
                if holds(*first, id) {
                    let j = leaves(*first).index_of(id);
                    assert(pa[j].0 == id);
                    assert(all[j] == pa[j]);
                }
                let k = i - pa.len();
                assert(all[i] == pb[k]);
                assert forall|j: int| 0 <= j < k implies (#[trigger] pb[j]).0 != id by {
                    assert(all[pa.len() + j] == pb[j]);
                }
                place_is_the_first_pane(*second, id, b, cut, k);
            }
        },
    }
}

/// The axis across another one.
pub open spec fn other_axis(axis: SplitDirection) -> SplitDirection {
    match axis {
        SplitDirection::Vertical => SplitDirection::Horizontal,
        SplitDirection::Horizontal => SplitDirection::Vertical,
    }
}

/// Whether two areas have the same place and extent on an axis.
pub open spec fn same_on(a: Rect, b: Rect, axis: SplitDirection) -> bool {
    origin(a, axis) == origin(b, axis) && extent(a, axis) == extent(b, axis)
}

/// Whether a split that runs along an axis lies on the way to the first pane of
/// a terminal.
pub open spec fn split_along(tree: Tree, id: Seq<char>, axis: SplitDirection) -> bool
    decreases tree,
{
    match tree {
        Tree::Leaf(_) => false,
        Tree::Split { direction, first, second, .. } => holds(tree, id) && (direction == axis
            || if holds(*first, id) {
            split_along(*first, id, axis)
        } else {
            split_along(*second, id, axis)
        }),
    }
}

/// A resize does what it is told to do with the focused pane: to the right or
/// down the pane does not shrink along the axis of the resize, and to the left or
/// up it does not grow, whichever half of its split it is.
pub proof fn resize_moves_the_focused_pane(
    tree: Tree,
    focused: Seq<char>,
    direction: Direction,
    area: Rect,
    cut: spec_fn(u16, u32) -> u16,
    adjust: spec_fn(u32, bool) -> u32,
    fair: spec_fn(u32) -> bool,
)
    requires
        holds(tree, focused),
        shares_in(tree, fair),
        never_exceeds(cut, fair),
        steady(cut, fair),
        stays_fair(adjust, fair),
        obeys(adjust, cut, fair),
    ensures
        ({
            let axis = axis_of(direction);
            let grow = grows_first(direction);
            let before = place_of(tree, focused, area, cut);
            let after = place_of(resized(tree, focused, axis, grow, adjust), focused, area, cut);
            &&& grow ==> extent(after, axis) >= extent(before, axis)
            &&& !grow ==> extent(after, axis) <= extent(before, axis)
        }),
{
    lemma_resize_moves(
        tree,
        focused,
        axis_of(direction),
        grows_first(direction),
        area,
        area,
        cut,
        adjust,
        fair,
    );
}

proof fn lemma_resize_moves(
    tree: Tree,
    target: Seq<char>,
    axis: SplitDirection,
    grow: bool,
    before: Rect,
    after: Rect,
    cut: spec_fn(u16, u32) -> u16,
    adjust: spec_fn(u32, bool) -> u32,
    fair: spec_fn(u32) -> bool,
)
    requires
        holds(tree, target),
        shares_in(tree, fair),
        never_exceeds(cut, fair),
        steady(cut, fair),
        stays_fair(adjust, fair),
        obeys(adjust, cut, fair),
        extent(before, other_axis(axis)) == extent(after, other_axis(axis)),
        grow ==> extent(before, axis) <= extent(after, axis),
        !grow ==> extent(before, axis) >= extent(after, axis),
    ensures
        ({
            let was = place_of(tree, target, before, cut);
            let now = place_of(resized(tree, target, axis, grow, adjust), target, after, cut);
            &&& grow ==> extent(was, axis) <= extent(now, axis)
            &&& !grow ==> extent(was, axis) >= extent(now, axis)
        }),
    decreases tree,
{
    match tree {
        Tree::Leaf(_) => {},
        Tree::Split { direction, ratio, first, second } => {
            lemma_resize_keeps_leaves(*first, target, axis, grow, adjust, target);
            lemma_resize_keeps_leaves(*second, target, axis, grow, adjust, target);
            let in_first = holds(*first, target);
            let share = if direction == axis {
                adjust(ratio, if in_first {
                    grow
                } else {
                    !grow
                })
            } else {
                ratio
            };
            let old_cells = cut(extent(before, direction), ratio);
            let new_cells = cut(extent(after, direction), share);
            assert(fair(share));
            if in_first {
                lemma_resize_moves(
                    *first,
                    target,
                    axis,
                    grow,
                    first_part(before, direction, old_cells),
                    first_part(after, direction, new_cells),
                    cut,
                    adjust,
                    fair,
                );
            } else {
                lemma_resize_moves(
                    *second,
                    target,
                    axis,
                    grow,
                    second_part(before, direction, old_cells),
                    second_part(after, direction, new_cells),
                    cut,
                    adjust,
                    fair,
                );
            }
        },
    }
}

/// A resize leaves every pane as it was across the axis of the resize.
pub proof fn resize_keeps_the_other_axis(
    tree: Tree,
    focused: Seq<char>,
    direction: Direction,
    area: Rect,
    cut: spec_fn(u16, u32) -> u16,
    adjust: spec_fn(u32, bool) -> u32,
)
    ensures
        ({
            let axis = axis_of(direction);
            let before = panes(tree, area, cut);
            let after = panes(
                resized(tree, focused, axis, grows_first(direction), adjust),
                area,
                cut,
            );
            &&& after.len() == before.len()
            &&& forall|i: int|
                0 <= i < before.len() ==> (#[trigger] after[i]).0 == before[i].0 && same_on(
                    after[i].1,
                    before[i].1,
                    other_axis(axis),
                )
        }),
{
    lemma_same_across(
        tree,
        focused,
        axis_of(direction),
        grows_first(direction),
        area,
        area,
        cut,
        adjust,
    );
}

proof fn lemma_same_across(
    tree: Tree,
    target: Seq<char>,
    axis: SplitDirection,
    grow: bool,
    before: Rect,
    after: Rect,
    cut: spec_fn(u16, u32) -> u16,
    adjust: spec_fn(u32, bool) -> u32,
)
    requires
        same_on(before, after, other_axis(axis)),
    ensures
        ({
            let was = panes(tree, before, cut);
            let now = panes(resized(tree, target, axis, grow, adjust), after, cut);
            &&& now.len() == was.len()
            &&& forall|i: int|
                0 <= i < was.len() ==> (#[trigger] now[i]).0 == was[i].0 && same_on(
                    now[i].1,
                    was[i].1,
                    other_axis(axis),
                )
        }),
    decreases tree,
{
    match tree {
        Tree::Leaf(_) => {},
        Tree::Split { direction, ratio, first, second } => {
            lemma_resize_elsewhere(*first, target, axis, grow, adjust);
            lemma_resize_elsewhere(*second, target, axis, grow, adjust);
            let changed = resized(tree, target, axis, grow, adjust);
            let share = changed->ratio;
            let was_cells = cut(extent(before, direction), ratio);
            let now_cells = cut(extent(after, direction), share);
            let a = first_part(before, direction, was_cells);
            let b = second_part(before, direction, was_cells);
            let c = first_part(after, direction, now_cells);
            let d = second_part(after, direction, now_cells);
            if holds(*first, target) {
                lemma_same_across(*first, target, axis, grow, a, c, cut, adjust);
                lemma_stays_across(*second, axis, b, d, cut);
            } else {
                lemma_stays_across(*first, axis, a, c, cut);
                lemma_same_across(*second, target, axis, grow, b, d, cut, adjust);
            }
            let was = panes(tree, before, cut);
            let now = panes(changed, after, cut);
            let pa = panes(*first, a, cut);
            let pb = panes(*second, b, cut);
            assert(was == pa + pb);
            assert forall|i: int| 0 <= i < was.len() implies (#[trigger] now[i]).0 == was[i].0
                && same_on(now[i].1, was[i].1, other_axis(axis)) by {
                if i < pa.len() {
                    assert(was[i] == pa[i]);
                } else {
                    assert(was[i] == pb[i - pa.len()]);
                }
            }
        },
    }
}

proof fn lemma_stays_across(
    tree: Tree,
    axis: SplitDirection,
    before: Rect,
    after: Rect,
    cut: spec_fn(u16, u32) -> u16,
)
    requires
        same_on(before, after, other_axis(axis)),
    ensures
        ({
            let was = panes(tree, before, cut);
            let now = panes(tree, after, cut);
            &&& now.len() == was.len()
            &&& forall|i: int|
                0 <= i < was.len() ==> (#[trigger] now[i]).0 == was[i].0 && same_on(
                    now[i].1,
                    was[i].1,
                    other_axis(axis),
                )
        }),
    decreases tree,
{
    match tree {
        Tree::Leaf(_) => {},
        Tree::Split { direction, ratio, first, second } => {
            let was_cells = cut(extent(before, direction), ratio);
            let now_cells = cut(extent(after, direction), ratio);
            let a = first_part(before, direction, was_cells);
            let b = second_part(before, direction, was_cells);
            lemma_stays_across(*first, axis, a, first_part(after, direction, now_cells), cut);
            lemma_stays_across(*second, axis, b, second_part(after, direction, now_cells), cut);
            let was = panes(tree, before, cut);
            let now = panes(tree, after, cut);
            let pa = panes(*first, a, cut);
            let pb = panes(*second, b, cut);
            assert(was == pa + pb);
            assert forall|i: int| 0 <= i < was.len() implies (#[trigger] now[i]).0 == was[i].0
                && same_on(now[i].1, was[i].1, other_axis(axis)) by {
                if i < pa.len() {
                    assert(was[i] == pa[i]);
                } else {
                    assert(was[i] == pb[i - pa.len()]);
                }
            }
        },
    }
}

/// Where no split on the way to the focused pane runs along the axis, a resize
/// changes nothing.
pub proof fn resize_needs_a_split_along_the_axis(
    tree: Tree,
    focused: Seq<char>,
    direction: Direction,
    adjust: spec_fn(u32, bool) -> u32,
)
    requires
        !split_along(tree, focused, axis_of(direction)),
    ensures
        resized(tree, focused, axis_of(direction), grows_first(direction), adjust) == tree,
    decreases tree,
{
    if let Tree::Split { first, second, .. } = tree {
        if holds(*first, focused) {
            resize_needs_a_split_along_the_axis(*first, focused, direction, adjust);
        } else if holds(*second, focused) {
            resize_needs_a_split_along_the_axis(*second, focused, direction, adjust);
        }
    }
}

/// The tree after a number of resizes, each with its own direction and its own
/// adjustment.
pub open spec fn resized_by(
    tree: Tree,
    focused: Seq<char>,
    moves: Seq<(Direction, spec_fn(u32, bool) -> u32)>,
) -> Tree
    decreases moves.len(),
{
    if moves.len() == 0 {
        tree
    } else {
        let (direction, adjust) = moves.last();
        resized(
            resized_by(tree, focused, moves.drop_last()),
            focused,
            axis_of(direction),
            grows_first(direction),
            adjust,
        )
    }
}

/// However often two panes beside or above each other are resized, the first one
/// keeps within what fair shares are of the area, and the second one gets the
/// rest.
pub proof fn two_panes_stay_within_bounds(
    direction: SplitDirection,
    ids: (Seq<char>, Seq<char>),
    focused: Seq<char>,
    moves: Seq<(Direction, spec_fn(u32, bool) -> u32)>,
    area: Rect,
    cut: spec_fn(u16, u32) -> u16,
    fair: spec_fn(u32) -> bool,
    least: u16,
    most: u16,
)
    requires
        fair(EVEN_SHARE),
        forall|i: int| 0 <= i < moves.len() ==> stays_fair((#[trigger] moves[i]).1, fair),
        forall|ratio: u32|
            fair(ratio) ==> least <= #[trigger] cut(extent(area, direction), ratio) <= most,
        most <= extent(area, direction),
    ensures
        ({
            let start = Tree::Split {
                direction,
                ratio: EVEN_SHARE,
                first: Box::new(Tree::Leaf(ids.0)),
                second: Box::new(Tree::Leaf(ids.1)),
            };
            let list = panes(resized_by(start, focused, moves), area, cut);
            &&& list.len() == 2
            &&& list[0].0 == ids.0 && list[1].0 == ids.1
            &&& least <= extent(list[0].1, direction) <= most
            &&& extent(list[0].1, direction) + extent(list[1].1, direction) == extent(
                area,
                direction,
            )
        }),
{
    let start = Tree::Split {
        direction,
        ratio: EVEN_SHARE,
        first: Box::new(Tree::Leaf(ids.0)),
        second: Box::new(Tree::Leaf(ids.1)),
    };
    lemma_two_panes_remain(start, focused, moves, fair);
    let now = resized_by(start, focused, moves);
    let cells = cut(extent(area, direction), now->ratio);
    reveal_with_fuel(panes, 2);
    assert(panes(now, area, cut) =~= seq![
        (ids.0, first_part(area, direction, cells)),
        (ids.1, second_part(area, direction, cells)),
    ]);
}

proof fn lemma_two_panes_remain(
    start: Tree,
    focused: Seq<char>,
    moves: Seq<(Direction, spec_fn(u32, bool) -> u32)>,
    fair: spec_fn(u32) -> bool,
)
    requires
        start is Split,
        *start->first is Leaf,
        *start->second is Leaf,
        fair(start->ratio),
        forall|i: int| 0 <= i < moves.len() ==> stays_fair((#[trigger] moves[i]).1, fair),
    ensures
        ({
            let now = resized_by(start, focused, moves);
            &&& now is Split
            &&& now->direction == start->direction
            &&& now->first == start->first
            &&& now->second == start->second
            &&& fair(now->ratio)
        }),
    decreases moves.len(),
{
    if moves.len() > 0 {
        let before = moves.drop_last();
        assert forall|i: int| 0 <= i < before.len() implies stays_fair(
            (#[trigger] before[i]).1,
            fair,
        ) by {
            assert(before[i] == moves[i]);
        }
        lemma_two_panes_remain(start, focused, before, fair);
        assert(stays_fair(moves[moves.len() - 1].1, fair));
        reveal_with_fuel(resized, 2);
    }
}

/// A leaf fills its area. A split beside each other gives its first half the cut
/// columns from the left and its second half the columns to the right of them, in
/// all rows; a split above each other does so with rows from the top.
pub proof fn halves_share_the_area(
    id: Seq<char>,
    ratio: u32,
    first: Tree,
    second: Tree,
    area: Rect,
    cut: spec_fn(u16, u32) -> u16,
)
    requires
        area_fits(area),
        cut(area.width, ratio) <= area.width,
        cut(area.height, ratio) <= area.height,
    ensures
        panes(Tree::Leaf(id), area, cut) == seq![(id, area)],
        ({
            let cols = cut(area.width, ratio);
            panes(
                Tree::Split {
                    direction: SplitDirection::Vertical,
                    ratio,
                    first: Box::new(first),
                    second: Box::new(second),
                },
                area,
                cut,
            ) == panes(
                first,
                Rect { x: area.x, y: area.y, width: cols, height: area.height },
                cut,
            ) + panes(
                second,
                Rect {
                    x: (area.x + cols) as u16,
                    y: area.y,
                    width: (area.width - cols) as u16,
                    height: area.height,
                },
                cut,
            )
        }),
        ({
            let rows = cut(area.height, ratio);
            panes(
                Tree::Split {
                    direction: SplitDirection::Horizontal,
                    ratio,
                    first: Box::new(first),
                    second: Box::new(second),
                },
                area,
                cut,
            ) == panes(
                first,
                Rect { x: area.x, y: area.y, width: area.width, height: rows },
                cut,
            ) + panes(
                second,
                Rect {
                    x: area.x,
                    y: (area.y + rows) as u16,
                    width: area.width,
                    height: (area.height - rows) as u16,
                },
                cut,
            )
        }),
{
}

/// A first half that takes more than there is leaves nothing for the second one.
pub proof fn greedy_half_leaves_nothing(area: Rect, cells: u16)
    requires
        area.x + cells <= u16::MAX,
        area.y + cells <= u16::MAX,
    ensures
        first_part(area, SplitDirection::Vertical, cells) == (Rect {
            x: area.x,
            y: area.y,
            width: cells,
            height: area.height,
        }),
        first_part(area, SplitDirection::Horizontal, cells) == (Rect {
            x: area.x,
            y: area.y,
            width: area.width,
            height: cells,
        }),
        cells >= area.width ==> second_part(area, SplitDirection::Vertical, cells) == (Rect {
            x: (area.x + cells) as u16,
            y: area.y,
            width: 0,
            height: area.height,
        }),
        cells >= area.height ==> second_part(area, SplitDirection::Horizontal, cells) == (Rect {
            x: area.x,
            y: (area.y + cells) as u16,
            width: area.width,
            height: 0,
        }),
{
}

/// What a close leaves of the panes: those before and those behind the split of
/// the closed pane, that split, its other half, and the place of both.
pub struct Closing {
    pub before: Seq<(Seq<char>, Rect)>,
    pub behind: Seq<(Seq<char>, Rect)>,
    pub direction: SplitDirection,
    pub ratio: u32,
    pub other: Tree,
    /// Whether the closed pane is the first half.
    pub is_first: bool,
    pub place: Rect,
}

/// Closing a pane gives the place of its split to its sibling as it is, whichever
/// half it was, and leaves every pane outside of that split in its place. The
/// focus goes to the first pane of the sibling.
pub proof fn close_gives_the_place_to_the_sibling(
    tree: Tree,
    focused: Seq<char>,
    area: Rect,
    cut: spec_fn(u16, u32) -> u16,
) -> (closing: Closing)
    requires
        holds(tree, focused),
        tree is Split,
    ensures
        ({
            let leaf = Box::new(Tree::Leaf(focused));
            let other = Box::new(closing.other);
            let split = if closing.is_first {
                Tree::Split {
                    direction: closing.direction,
                    ratio: closing.ratio,
                    first: leaf,
                    second: other,
                }
            } else {
                Tree::Split {
                    direction: closing.direction,
                    ratio: closing.ratio,
                    first: other,
                    second: leaf,
                }
            };
            &&& remove_leaf(tree, focused) matches Some((changed, heir))
            &&& heir == leaves(closing.other)[0]
            &&& panes(tree, area, cut) == closing.before + panes(split, closing.place, cut)
                + closing.behind
            &&& panes(changed, area, cut) == closing.before + panes(
                closing.other,
                closing.place,
                cut,
            ) + closing.behind
        }),
    decreases tree,
{
    let none: Seq<(Seq<char>, Rect)> = Seq::empty();
    let (direction, ratio, first, second) = match tree {
        Tree::Split { direction, ratio, first, second } => (direction, ratio, first, second),
        Tree::Leaf(_) => arbitrary(),
    };
    let cells = cut(extent(area, direction), ratio);
    let a = first_part(area, direction, cells);
    let b = second_part(area, direction, cells);
    let pa = panes(*first, a, cut);
    let pb = panes(*second, b, cut);
    lemma_leaf_alone(*first, focused);
    lemma_leaf_alone(*second, focused);
    lemma_remove_finds(tree, focused);
    if *first == Tree::Leaf(focused) {
        lemma_first_leaf(*second);
        assert(panes(tree, area, cut) =~= none + panes(tree, area, cut) + none);
        assert(panes(*second, area, cut) =~= none + panes(*second, area, cut) + none);
        Closing {
            before: none,
            behind: none,
            direction,
            ratio,
            other: *second,
            is_first: true,
            place: area,
        }
    } else if *second == Tree::Leaf(focused) {
        lemma_first_leaf(*first);
        assert(panes(tree, area, cut) =~= none + panes(tree, area, cut) + none);
        assert(panes(*first, area, cut) =~= none + panes(*first, area, cut) + none);
        Closing {
            before: none,
            behind: none,
            direction,
            ratio,
            other: *first,
            is_first: false,
            place: area,
        }
    } else {
        lemma_remove_finds(*first, focused);
        lemma_remove_finds(*second, focused);
        if holds(*first, focused) {
            let inner = close_gives_the_place_to_the_sibling(*first, focused, a, cut);
            let kept = remove_leaf(*first, focused).unwrap().0;
            let hole = pa.subrange(
                inner.before.len() as int,
                pa.len() - inner.behind.len(),
            );
            assert(pa =~= inner.before + hole + inner.behind);
            assert(pa + pb =~= inner.before + hole + (inner.behind + pb));
            let filled = panes(inner.other, inner.place, cut);
            assert(panes(kept, a, cut) + pb =~= inner.before + filled + (inner.behind + pb));
            Closing { behind: inner.behind + pb, ..inner }
        } else {
            let inner = close_gives_the_place_to_the_sibling(*second, focused, b, cut);
            let kept = remove_leaf(*second, focused).unwrap().0;
            let hole = pb.subrange(
                inner.before.len() as int,
                pb.len() - inner.behind.len(),
            );
            assert(pb =~= inner.before + hole + inner.behind);
            assert(pa + pb =~= (pa + inner.before) + hole + inner.behind);
            let filled = panes(inner.other, inner.place, cut);
            assert(pa + panes(kept, b, cut) =~= (pa + inner.before) + filled + inner.behind);
            Closing { before: pa + inner.before, ..inner }
        }
    }
}

proof fn lemma_first_leaf(tree: Tree)
    ensures
        leaves(tree).len() > 0,
        first_leaf(tree) == leaves(tree)[0],
    decreases tree,
{
    if let Tree::Split { first, .. } = tree {
        lemma_first_leaf(*first);
    }
}

/// A resize adjusts every split around the focused pane that runs along its axis,
/// and no other one. To the right and down the share of the first half grows where
/// the pane is in the first half and shrinks where it is in the second, and to the
/// left and up it is the other way round.
pub proof fn resize_adjusts_the_splits_around_the_pane(
    id: Seq<char>,
    ratio: u32,
    first: Tree,
    second: Tree,
    focused: Seq<char>,
    adjust: spec_fn(u32, bool) -> u32,
)
    ensures
        ({
            let beside = |share: u32, a: Tree, b: Tree|
                Tree::Split {
                    direction: SplitDirection::Vertical,
                    ratio: share,
                    first: Box::new(a),
                    second: Box::new(b),
                };
            let above = |share: u32, a: Tree, b: Tree|
                Tree::Split {
                    direction: SplitDirection::Horizontal,
                    ratio: share,
                    first: Box::new(a),
                    second: Box::new(b),
                };
            let to = |tree: Tree, d: Direction|
                resized(tree, focused, axis_of(d), grows_first(d), adjust);
            let right = Direction::Right;
            let left = Direction::Left;
            let down = Direction::Down;
            let up = Direction::Up;
            let more = adjust(ratio, true);
            let less = adjust(ratio, false);
            let s = beside(ratio, first, second);
            let t = above(ratio, first, second);
            &&& forall|d: Direction| #[trigger] to(Tree::Leaf(id), d) == Tree::Leaf(id)
            &&& holds(first, focused) ==> {
                &&& to(s, right) == beside(more, to(first, right), second)
                &&& to(s, left) == beside(less, to(first, left), second)
                &&& to(s, down) == beside(ratio, to(first, down), second)
                &&& to(s, up) == beside(ratio, to(first, up), second)
                &&& to(t, down) == above(more, to(first, down), second)
                &&& to(t, up) == above(less, to(first, up), second)
                &&& to(t, right) == above(ratio, to(first, right), second)
                &&& to(t, left) == above(ratio, to(first, left), second)
            }
            &&& !holds(first, focused) && holds(second, focused) ==> {
                &&& to(s, right) == beside(less, first, to(second, right))
                &&& to(s, left) == beside(more, first, to(second, left))
                &&& to(s, down) == beside(ratio, first, to(second, down))
                &&& to(s, up) == beside(ratio, first, to(second, up))
                &&& to(t, down) == above(less, first, to(second, down))
                &&& to(t, up) == above(more, first, to(second, up))
                &&& to(t, right) == above(ratio, first, to(second, right))
                &&& to(t, left) == above(ratio, first, to(second, left))
            }
            &&& !holds(first, focused) && !holds(second, focused) ==> forall|d: Direction| #[trigger]
                to(s, d) == s && to(t, d) == t
        }),
{
}

/// A resize has an effect: where an adjusted share is another number of cells, a
/// pane that is one half of a split along the axis strictly grows to the right
/// and down and strictly shrinks to the left and up, in either half.
pub proof fn resize_has_an_effect(
    direction: Direction,
    ratio: u32,
    focused: Seq<char>,
    other: Seq<char>,
    area: Rect,
    cut: spec_fn(u16, u32) -> u16,
    adjust: spec_fn(u32, bool) -> u32,
)
    requires
        other != focused,
        ({
            let whole = if direction is Left || direction is Right {
                area.width
            } else {
                area.height
            };
            &&& cut(whole, adjust(ratio, false)) < cut(whole, ratio)
            &&& cut(whole, ratio) < cut(whole, adjust(ratio, true))
            &&& cut(whole, adjust(ratio, true)) <= whole
        }),
    ensures
        ({
            let flat = direction is Left || direction is Right;
            let along = if flat {
                SplitDirection::Vertical
            } else {
                SplitDirection::Horizontal
            };
            let grows = direction is Right || direction is Down;
            let size = |r: Rect| if flat {
                r.width as int
            } else {
                r.height as int
            };
            let to = |tree: Tree|
                resized(tree, focused, axis_of(direction), grows_first(direction), adjust);
            let as_first = Tree::Split {
                direction: along,
                ratio,
                first: Box::new(Tree::Leaf(focused)),
                second: Box::new(Tree::Leaf(other)),
            };
            let as_second = Tree::Split {
                direction: along,
                ratio,
                first: Box::new(Tree::Leaf(other)),
                second: Box::new(Tree::Leaf(focused)),
            };
            let was_first = panes(as_first, area, cut);
            let now_first = panes(to(as_first), area, cut);
            let was_second = panes(as_second, area, cut);
            let now_second = panes(to(as_second), area, cut);
            &&& was_first.len() == 2 && now_first.len() == 2
            &&& was_second.len() == 2 && now_second.len() == 2
            &&& now_first[0].0 == focused && now_second[1].0 == focused
            &&& grows ==> {
                &&& size(now_first[0].1) > size(was_first[0].1)
                &&& size(now_second[1].1) > size(was_second[1].1)
            }
            &&& !grows ==> {
                &&& size(now_first[0].1) < size(was_first[0].1)
                &&& size(now_second[1].1) < size(was_second[1].1)
            }
        }),
{
    reveal_with_fuel(panes, 2);
    reveal_with_fuel(resized, 2);
    reveal_with_fuel(holds, 2);
}

/// The focus goes to the nearest pane that lies wholly on the side it is sent to
/// and is neither above nor below the focused one (or neither left nor right of
/// it), to the first of several that are equally near, and nowhere where there is
/// none.
pub proof fn focus_goes_to_the_nearest_level_pane(
    list: Seq<(Seq<char>, Rect)>,
    focused: Seq<char>,
    from: Rect,
    direction: Direction,
    now: Seq<char>,
) -> (place: Option<int>)
    requires
        focus_moves(list, focused, from, direction, now),
    ensures
        ({
            // How far a pane is on that side; less than nothing where it is not on it.
            let far = |r: Rect|
                match direction {
                    Direction::Left => from.x - r.x - r.width,
                    Direction::Right => r.x - from.x - from.width,
                    Direction::Up => from.y - r.y - r.height,
                    Direction::Down => r.y - from.y - from.height,
                };
            let apart = |r: Rect|
                match direction {
                    Direction::Left | Direction::Right => r.y + r.height <= from.y || from.y
                        + from.height <= r.y,
                    Direction::Up | Direction::Down => r.x + r.width <= from.x || from.x
                        + from.width <= r.x,
                };
            match place {
                None => now == focused && forall|i: int|
                    0 <= i < list.len() && (#[trigger] list[i]).0 != focused ==> far(list[i].1) < 0
                        || apart(list[i].1),
                Some(p) => {
                    &&& 0 <= p < list.len() && list[p].0 == now && now != focused
                    &&& far(list[p].1) >= 0 && !apart(list[p].1)
                    &&& forall|i: int|
                        0 <= i < list.len() && (#[trigger] list[i]).0 != focused && far(list[i].1)
                            >= 0 && !apart(list[i].1) ==> far(list[p].1) < far(list[i].1) || (far(
                            list[p].1,
                        ) == far(list[i].1) && p <= i)
                },
            }
        }),
{
    if exists|i: int| candidate(list, focused, from, direction, i) {
        let p = choose|i: int| #[trigger]
            nearest(list, focused, from, direction, i) && now == list[i].0;
        assert forall|i: int| 0 <= i < list.len() && (#[trigger] list[i]).0 != focused && beyond(
            direction,
            from,
            list[i].1,
        ) implies candidate(list, focused, from, direction, i) by {}
        Some(p)
    } else {
        assert forall|i: int| 0 <= i < list.len() && (#[trigger] list[i]).0 != focused implies !beyond(
            direction,
            from,
            list[i].1,
        ) by {
            assert(!candidate(list, focused, from, direction, i));
        }
        None
    }
}

/// Two ranges of cells that are not empty overlap if and only if they have a cell
/// in common.
pub proof fn overlapping_ranges_share_a_cell(a: int, a_len: int, b: int, b_len: int)
    requires
        a_len > 0,
        b_len > 0,
    ensures
        overlap(a, a_len, b, b_len) <==> exists|cell: int|
            a <= cell < a + a_len && #[trigger] cell_in(cell, b, b_len),
{
    if overlap(a, a_len, b, b_len) {
        let cell = if a < b {
            b
        } else {
            a
        };
        assert(cell_in(cell, b, b_len));
    }
}

/// Whether a cell lies in a range.
pub open spec fn cell_in(cell: int, start: int, len: int) -> bool {
    start <= cell < start + len
}

/// A split puts the new terminal behind the one that it divides, in the given
/// direction and with even shares. It goes to the first half where that holds the
/// terminal and otherwise to the second, and leaves the split, its share and the
/// other half as they are.
pub proof fn split_changes_one_leaf(
    id: Seq<char>,
    target: Seq<char>,
    new_id: Seq<char>,
    direction: SplitDirection,
    outer: SplitDirection,
    ratio: u32,
    first: Tree,
    second: Tree,
)
    ensures
        split_leaf(Tree::Leaf(target), target, direction, new_id) == Some(
            Tree::Split {
                direction,
                ratio: 0x3f00_0000,
                first: Box::new(Tree::Leaf(target)),
                second: Box::new(Tree::Leaf(new_id)),
            },
        ),
        id != target ==> split_leaf(Tree::Leaf(id), target, direction, new_id) is None,
        ({
            let whole = Tree::Split {
                direction: outer,
                ratio,
                first: Box::new(first),
                second: Box::new(second),
            };
            let changed = split_leaf(whole, target, direction, new_id);
            &&& holds(first, target) ==> changed == Some(
                Tree::Split {
                    direction: outer,
                    ratio,
                    first: Box::new(split_leaf(first, target, direction, new_id).unwrap()),
                    second: Box::new(second),
                },
            )
            &&& !holds(first, target) && holds(second, target) ==> changed == Some(
                Tree::Split {
                    direction: outer,
                    ratio,
                    first: Box::new(first),
                    second: Box::new(split_leaf(second, target, direction, new_id).unwrap()),
                },
            )
            &&& !holds(first, target) && !holds(second, target) ==> changed is None
        }),
{
    lemma_split_finds(first, target, direction, new_id);
    lemma_split_finds(second, target, direction, new_id);
}

/// A close of one half of a split leaves the other half as it is, and one further
/// down leaves the split, its share and the half without the terminal as they
/// are. A tree of one leaf keeps it.
pub proof fn close_changes_one_split(
    target: Seq<char>,
    outer: SplitDirection,
    ratio: u32,
    first: Tree,
    second: Tree,
)
    ensures
        remove_leaf(Tree::Leaf(target), target) is None,
        ({
            let whole = |a: Tree, b: Tree|
                Tree::Split {
                    direction: outer,
                    ratio,
                    first: Box::new(a),
                    second: Box::new(b),
                };
            let leaf = Tree::Leaf(target);
            let changed = remove_leaf(whole(first, second), target);
            &&& first == leaf ==> changed == Some((second, leaves(second)[0]))
            &&& first != leaf && second == leaf ==> changed == Some((first, leaves(first)[0]))
            &&& first != leaf && second != leaf && holds(first, target) ==> {
                &&& remove_leaf(first, target) matches Some((rest, heir))
                &&& changed == Some((whole(rest, second), heir))
            }
            &&& first != leaf && second != leaf && !holds(first, target) && holds(second, target)
                ==> {
                &&& remove_leaf(second, target) matches Some((rest, heir))
                &&& changed == Some((whole(first, rest), heir))
            }
        }),
{
    lemma_first_leaf(first);
    lemma_first_leaf(second);
    lemma_leaf_alone(first, target);
    lemma_leaf_alone(second, target);
    lemma_remove_finds(first, target);
    lemma_remove_finds(second, target);
}

} // verus!
