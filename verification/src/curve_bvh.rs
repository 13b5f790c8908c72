//! A bounding-volume hierarchy over the curves of a path.
//!
//! The tree is an array of nodes with the root at index 0. A leaf holds a
//! range of curve records; a branch holds the index of its left child, and
//! its right child follows directly. The tree is built top down: a leaf is
//! divided where the surface-area heuristic finds a division that is cheaper
//! than the leaf, and its records are partitioned in place.
use crate::bezier::Cubic;
use crate::path::{
    curves_before_spec, lemma_points_and_curves, lemma_points_before_monotonic,
    points_before_spec, segment_wf_spec, Path, PathModel,
};
use crate::point::Point;
use crate::rect::Rect;
use crate::scalar::{zero, zero_spec, Scalar};
use vstd::prelude::*;

verus! {

/// One curve of the path: where it is, and the middle of its coarse bounds.
#[derive(Clone, Copy, Debug, PartialEq)]
pub struct Curve<S: Scalar> {
    pub centroid: Point<S>,
    pub segment_id: u16,
    pub first_point: u16,
}

/// The records `first_curve .. first_curve + num_curves`.
#[derive(Clone, Copy, Debug, PartialEq, Eq)]
pub struct Leaf {
    /// The index of the first curve in this leaf.
    pub first_curve: u16,
    /// The number of curves in this leaf.
    pub num_curves: u16,
}

/// The index of the left child; the right child is at the index after it.
#[derive(Clone, Copy, Debug, PartialEq, Eq)]
pub struct Branch {
    pub left_then_right: u32,
}

/// The axis along which a leaf is divided.
#[derive(Clone, Copy, Debug, PartialEq, Eq)]
pub enum SplitAxis {
    X,
    Y,
}

/// What a node is: the only node of the tree of an empty path, a leaf, or a
/// branch.
#[derive(Clone, Copy, Debug, PartialEq, Eq)]
pub enum Data {
    Empty,
    Leaf(Leaf),
    Branch(Branch),
}

/// A node: its bounds, the pass of the flattening that last changed a curve
/// below it, and what it is.
#[derive(Clone, Copy, Debug, PartialEq)]
pub struct Node<S: Scalar> {
    pub bbox: Rect<S>,
    pub last_touched: u32,
    pub data: Data,
}

impl<S: Scalar> Node<S> {
    /// The leaf that the node is, if it is one.
    pub fn leaf(&self) -> (r: Option<Leaf>)
        ensures
            r == (match self.data {
                Data::Leaf(leaf) => Some(leaf),
                _ => None,
            }),
    {
        match self.data {
            Data::Leaf(leaf) => Some(leaf),
            _ => None,
        }
    }

    /// The branch that the node is, if it is one.
    pub fn branch(&self) -> (r: Option<Branch>)
        ensures
            r == (match self.data {
                Data::Branch(branch) => Some(branch),
                _ => None,
            }),
    {
        match self.data {
            Data::Branch(branch) => Some(branch),
            _ => None,
        }
    }

    /// Whether the node is a leaf.
    pub fn is_leaf(&self) -> (r: bool)
        ensures
            r == (self.data is Leaf),
    {
        match self.data {
            Data::Leaf(_) => true,
            _ => false,
        }
    }

    /// Whether the node is a branch.
    pub fn is_branch(&self) -> (r: bool)
        ensures
            r == (self.data is Branch),
    {
        match self.data {
            Data::Branch(_) => true,
            _ => false,
        }
    }
}

/// A division of a leaf: the axis, the position on it, and what the
/// surface-area heuristic charges for it.
#[derive(Clone, Copy, Debug, PartialEq)]
pub struct Split<S: Scalar> {
    pub axis: SplitAxis,
    pub position: S,
    pub cost: S,
}

/// The two sides of a division while the records are being dealt out.
#[derive(Clone, Copy, Debug, PartialEq)]
pub struct Sides<S: Scalar> {
    pub left: Option<Rect<S>>,
    pub num_left: u32,
    pub right: Option<Rect<S>>,
    pub num_right: u32,
}

/// The record of the curve of segment `segment_id` whose first point is at
/// `first_point`.
pub open spec fn record_spec<S: Scalar>(path: PathModel<S>, segment_id: int, first_point: int) -> Curve<
    S,
> {
    Curve {
        centroid: path.curve_at(first_point).coarse_bounds_spec().centroid_spec(),
        segment_id: segment_id as u16,
        first_point: first_point as u16,
    }
}

/// The records of the first `n` curves of the segment `k`.
pub open spec fn segment_records_spec<S: Scalar>(path: PathModel<S>, k: int, n: int) -> Seq<Curve<S>> {
    Seq::new(n as nat, |i: int| record_spec(path, k, points_before_spec(path.segments, k) + 3 * i))
}

/// The records of the curves of the first `k` segments, in path order.
pub open spec fn records_before_spec<S: Scalar>(path: PathModel<S>, k: int) -> Seq<Curve<S>>
    decreases k,
{
    if k <= 0 {
        Seq::empty()
    } else {
        records_before_spec(path, k - 1) + segment_records_spec(
            path,
            k - 1,
            (path.segments[k - 1].length - 1) / 3,
        )
    }
}

/// The records of all curves of the path, in path order.
pub open spec fn records_spec<S: Scalar>(path: PathModel<S>) -> Seq<Curve<S>> {
    records_before_spec(path, path.segments.len() as int)
}

/// Whether the record names four points and a segment of the path.
pub open spec fn record_valid_spec<S: Scalar>(path: PathModel<S>, c: Curve<S>) -> bool {
    c.first_point + 3 < path.x.len() && c.segment_id < path.segments.len()
}

/// The coarse bounds of the curve that the record names.
pub open spec fn record_bounds_spec<S: Scalar>(path: PathModel<S>, c: Curve<S>) -> Rect<S> {
    path.curve_at(c.first_point as int).coarse_bounds_spec()
}

/// The union of `acc` with the bounds of the records `k .. end`, taken in
/// this order.
pub open spec fn bounds_from_spec<S: Scalar>(
    curves: Seq<Curve<S>>,
    path: PathModel<S>,
    k: int,
    end: int,
    acc: Rect<S>,
) -> Rect<S>
    decreases end - k,
{
    if k >= end {
        acc
    } else {
        bounds_from_spec(curves, path, k + 1, end, acc.union_spec(record_bounds_spec(path, curves[k])))
    }
}

/// The union of the bounds of the records `first .. end`, taken in this
/// order, or the empty rectangle where there is none.
pub open spec fn bounds_spec<S: Scalar>(curves: Seq<Curve<S>>, path: PathModel<S>, first: int, end: int) -> Rect<
    S,
> {
    if first >= end {
        Rect::empty_spec()
    } else {
        bounds_from_spec(curves, path, first + 1, end, record_bounds_spec(path, curves[first]))
    }
}

/// The coordinate of the centroid of `c` on `axis`.
pub open spec fn axis_value_spec<S: Scalar>(c: Curve<S>, axis: SplitAxis) -> S {
    match axis {
        SplitAxis::X => c.centroid.x,
        SplitAxis::Y => c.centroid.y,
    }
}

/// `bounds` joined to what a side holds so far.
pub open spec fn grown_spec<S: Scalar>(side: Option<Rect<S>>, bounds: Rect<S>) -> Option<Rect<S>> {
    match side {
        Some(b) => Some(b.union_spec(bounds)),
        None => Some(bounds),
    }
}

/// The two sides after `c` has been dealt to the left, where its centroid
/// is below `position` on `axis`, and to the right otherwise.
pub open spec fn deal_spec<S: Scalar>(
    sides: Sides<S>,
    path: PathModel<S>,
    c: Curve<S>,
    axis: SplitAxis,
    position: S,
) -> Sides<S> {
    if axis_value_spec(c, axis).lt_spec(position) {
        Sides {
            left: grown_spec(sides.left, record_bounds_spec(path, c)),
            num_left: (sides.num_left + 1) as u32,
            right: sides.right,
            num_right: sides.num_right,
        }
    } else {
        Sides {
            left: sides.left,
            num_left: sides.num_left,
            right: grown_spec(sides.right, record_bounds_spec(path, c)),
            num_right: (sides.num_right + 1) as u32,
        }
    }
}

/// The two sides after the records `k .. end` have been dealt out.
pub open spec fn sides_from_spec<S: Scalar>(
    curves: Seq<Curve<S>>,
    path: PathModel<S>,
    axis: SplitAxis,
    position: S,
    k: int,
    end: int,
    sides: Sides<S>,
) -> Sides<S>
    decreases end - k,
{
    if k >= end {
        sides
    } else {
        sides_from_spec(
            curves,
            path,
            axis,
            position,
            k + 1,
            end,
            deal_spec(sides, path, curves[k], axis, position),
        )
    }
}

/// What one side costs: the number of its curves times the area of its
/// bounds, and nothing where it is empty.
pub open spec fn side_cost_spec<S: Scalar>(side: Option<Rect<S>>, count: u32) -> S {
    match side {
        Some(b) => S::from_int_spec(count as int).mul_spec(b.area_spec()),
        None => zero_spec(),
    }
}

/// The cost of dividing the records `first .. end` at `position` on `axis`:
/// the cost of the left side plus that of the right side.
pub open spec fn sah_spec<S: Scalar>(
    curves: Seq<Curve<S>>,
    path: PathModel<S>,
    first: int,
    end: int,
    axis: SplitAxis,
    position: S,
) -> S {
    let sides = sides_from_spec(
        curves,
        path,
        axis,
        position,
        first,
        end,
        Sides { left: None, num_left: 0, right: None, num_right: 0 },
    );
    side_cost_spec(sides.left, sides.num_left).add_spec(side_cost_spec(sides.right, sides.num_right))
}

/// The cheapest division after the centroids of the records `k .. end` have
/// been tried on `axis`; a later one takes the place of an earlier one only
/// where it is strictly cheaper.
pub open spec fn best_from_spec<S: Scalar>(
    curves: Seq<Curve<S>>,
    path: PathModel<S>,
    first: int,
    end: int,
    axis: SplitAxis,
    k: int,
    best: Split<S>,
) -> Split<S>
    decreases end - k,
{
    if k >= end {
        best
    } else {
        let position = axis_value_spec(curves[k], axis);
        let cost = sah_spec(curves, path, first, end, axis, position);
        best_from_spec(
            curves,
            path,
            first,
            end,
            axis,
            k + 1,
            if cost.lt_spec(best.cost) {
                Split { axis, position, cost }
            } else {
                best
            },
        )
    }
}

/// The cheapest division of the records `first .. end`: every centroid is
/// tried as a position, on the x axis first and then on the y axis.
pub open spec fn find_split_spec<S: Scalar>(curves: Seq<Curve<S>>, path: PathModel<S>, first: int, end: int) -> Split<
    S,
> {
    let start = Split { axis: SplitAxis::X, position: zero_spec(), cost: S::max_value_spec() };
    let on_x = best_from_spec(curves, path, first, end, SplitAxis::X, first, start);
    best_from_spec(curves, path, first, end, SplitAxis::Y, first, on_x)
}

/// The records with those at `i` and `j` exchanged.
pub open spec fn swapped_spec<S: Scalar>(curves: Seq<Curve<S>>, i: int, j: int) -> Seq<Curve<S>> {
    curves.update(i, curves[j]).update(j, curves[i])
}

/// The records `i ..= j` partitioned about `position` on `axis`, and the
/// index at which the right side starts. A record below the position stays
/// where the lower index finds it; any other changes places with the record
/// at the upper index, which then moves down.
pub open spec fn partition_spec<S: Scalar>(
    curves: Seq<Curve<S>>,
    axis: SplitAxis,
    position: S,
    i: int,
    j: int,
) -> (Seq<Curve<S>>, int)
    decreases j - i + 1,
{
    if i > j {
        (curves, i)
    } else if axis_value_spec(curves[i], axis).lt_spec(position) {
        partition_spec(curves, axis, position, i + 1, j)
    } else {
        partition_spec(swapped_spec(curves, i, j), axis, position, i, j - 1)
    }
}

/// The nodes and the records of a tree, as plain sequences.
pub struct BvhModel<S: Scalar> {
    pub nodes: Seq<Node<S>>,
    pub curves: Seq<Curve<S>>,
}

/// A leaf over the records `first .. first + count`, untouched.
pub open spec fn leaf_node_spec<S: Scalar>(bbox: Rect<S>, first: int, count: int) -> Node<S> {
    Node {
        bbox,
        last_touched: 0,
        data: Data::Leaf(Leaf { first_curve: first as u16, num_curves: count as u16 }),
    }
}

/// The tree after the leaf at `idx`, which holds the records
/// `first .. first + count`, has been divided as far as it pays.
///
/// A leaf of one record stays. Otherwise the cheapest division is looked
/// for; where it is not strictly cheaper than the leaf, whose cost is the
/// number of its records times the area of its bounds, the leaf stays. The
/// records are then partitioned. Where one side is empty the leaf stays and
/// takes the bounds of its records in their new order. Otherwise the two
/// sides become two new leaves at the end of the array, the leaf becomes
/// their branch, the left and then the right child are divided in turn, and
/// the branch takes the union of the bounds of its children.
pub open spec fn subdivide_spec<S: Scalar>(
    tree: BvhModel<S>,
    path: PathModel<S>,
    idx: int,
    first: int,
    count: int,
) -> BvhModel<S>
    decreases count,
{
    if count <= 1 {
        tree
    } else {
        let end = first + count;
        let split = find_split_spec(tree.curves, path, first, end);
        let node_cost = S::from_int_spec(count).mul_spec(tree.nodes[idx].bbox.area_spec());
        if !split.cost.lt_spec(node_cost) {
            tree
        } else {
            let (curves, middle) = partition_spec(tree.curves, split.axis, split.position, first, end - 1);
            let left_count = middle - first;
            if left_count <= 0 || left_count >= count {
                BvhModel {
                    nodes: tree.nodes.update(
                        idx,
                        Node {
                            bbox: bounds_spec(curves, path, first, end),
                            last_touched: tree.nodes[idx].last_touched,
                            data: tree.nodes[idx].data,
                        },
                    ),
                    curves,
                }
            } else {
                let left_idx = tree.nodes.len() as int;
                let nodes = tree.nodes.update(
                    idx,
                    Node {
                        bbox: tree.nodes[idx].bbox,
                        last_touched: tree.nodes[idx].last_touched,
                        data: Data::Branch(Branch { left_then_right: left_idx as u32 }),
                    },
                ).push(leaf_node_spec(bounds_spec(curves, path, first, middle), first, left_count)).push(
                    leaf_node_spec(bounds_spec(curves, path, middle, end), middle, count - left_count),
                );
                let after_left = subdivide_spec(
                    BvhModel { nodes, curves },
                    path,
                    left_idx,
                    first,
                    left_count,
                );
                let after_right = subdivide_spec(
                    after_left,
                    path,
                    left_idx + 1,
                    middle,
                    count - left_count,
                );
                BvhModel {
                    nodes: after_right.nodes.update(
                        idx,
                        Node {
                            bbox: after_right.nodes[left_idx].bbox.union_spec(
                                after_right.nodes[left_idx + 1].bbox,
                            ),
                            last_touched: after_right.nodes[idx].last_touched,
                            data: after_right.nodes[idx].data,
                        },
                    ),
                    curves: after_right.curves,
                }
            }
        }
    }
}

/// The tree of a path. An empty path has a single empty node. Otherwise the
/// root starts as a leaf over all records, in path order, and is divided.
pub open spec fn build_spec<S: Scalar>(path: PathModel<S>) -> BvhModel<S> {
    let curves = records_spec(path);
    if curves.len() == 0 {
        BvhModel {
            nodes: seq![Node { bbox: Rect::empty_spec(), last_touched: 0, data: Data::Empty }],
            curves,
        }
    } else {
        subdivide_spec(
            BvhModel {
                nodes: seq![
                    leaf_node_spec(
                        bounds_spec(curves, path, 0, curves.len() as int),
                        0,
                        curves.len() as int,
                    ),
                ],
                curves,
            },
            path,
            0,
            0,
            curves.len() as int,
        )
    }
}

impl<S: Scalar> BvhModel<S> {
    /// Whether the node at `i` is sound and lies within the records
    /// `lo .. hi`: a leaf holds at least one record, all of them within
    /// the range, and its bounds are the union of theirs; the children of a
    /// branch come after it, and its bounds are the union of theirs.
    pub open spec fn node_good(self, path: PathModel<S>, i: int, lo: int, hi: int) -> bool {
        match self.nodes[i].data {
            Data::Empty => false,
            Data::Leaf(leaf) => {
                &&& leaf.num_curves >= 1
                &&& lo <= leaf.first_curve
                &&& leaf.first_curve + leaf.num_curves <= hi
                &&& self.nodes[i].bbox == bounds_spec(
                    self.curves,
                    path,
                    leaf.first_curve as int,
                    leaf.first_curve + leaf.num_curves,
                )
            },
            Data::Branch(branch) => {
                &&& i < branch.left_then_right
                &&& branch.left_then_right + 1 < self.nodes.len()
                &&& self.nodes[i].bbox == self.nodes[branch.left_then_right as int].bbox.union_spec(
                    self.nodes[branch.left_then_right + 1].bbox,
                )
            },
        }
    }

    /// The tree with the node `idx` marked as touched in the pass
    /// `generation`.
    pub open spec fn touched(self, idx: int, generation: u32) -> Self {
        BvhModel {
            nodes: self.nodes.update(
                idx,
                Node {
                    bbox: self.nodes[idx].bbox,
                    last_touched: generation,
                    data: self.nodes[idx].data,
                },
            ),
            curves: self.curves,
        }
    }

    /// Whether the tree can be walked: every record names a curve of the
    /// path, every leaf names records of the tree, and the children of every
    /// branch are nodes that come after it.
    pub open spec fn shaped(self, path: PathModel<S>) -> bool {
        &&& self.nodes.len() <= u32::MAX
        &&& self.curves.len() <= u16::MAX
        &&& path.x.len() == path.y.len()
        &&& forall|k: int| 0 <= k < self.curves.len() ==> record_valid_spec(path, #[trigger] self.curves[k])
        &&& forall|i: int|
            0 <= i < self.nodes.len() ==> match (#[trigger] self.nodes[i]).data {
                Data::Empty => true,
                Data::Leaf(leaf) => leaf.first_curve + leaf.num_curves <= self.curves.len(),
                Data::Branch(branch) => i < branch.left_then_right && branch.left_then_right + 1
                    < self.nodes.len(),
            }
    }

    /// The leaves that a search for the neighbours of the node `idx` finds:
    /// those whose bounds, and the bounds of all nodes above them, meet the
    /// bounds of the node, the node itself left out.
    pub open spec fn neighbours(self, idx: int) -> Seq<(u32, Leaf)> {
        collect_spec(self.nodes, idx, self.nodes[idx].bbox, 0)
    }

    /// The curves of a leaf, each with its segment and the position of its
    /// first point.
    pub open spec fn curves_in(self, leaf: Leaf, path: PathModel<S>) -> Seq<(Cubic<S>, u16, u16)> {
        Seq::new(
            leaf.num_curves as nat,
            |i: int|
                (
                    path.curve_at(self.curves[leaf.first_curve + i].first_point as int),
                    self.curves[leaf.first_curve + i].segment_id,
                    self.curves[leaf.first_curve + i].first_point,
                ),
        )
    }

    /// Whether this is a sound tree over the curves of `path`: the records
    /// are those of the path in some order; a path without curves has the
    /// one empty node; otherwise there are at most `2 * N - 1` nodes for `N`
    /// curves, the leaves divide all records among themselves, and every
    /// node is sound.
    pub open spec fn wf(self, path: PathModel<S>) -> bool {
        &&& self.curves.to_multiset() == records_spec(path).to_multiset()
        &&& self.curves.len() == path.num_curves()
        &&& forall|k: int| 0 <= k < self.curves.len() ==> record_valid_spec(path, #[trigger] self.curves[k])
        &&& self.curves.len() == 0 ==> self.nodes.len() == 1 && self.nodes[0].data is Empty
        &&& self.curves.len() > 0 ==> {
            &&& 1 <= self.nodes.len() <= 2 * self.curves.len() - 1
            &&& tiled_spec(self.nodes, 0)
            &&& start_spec(self.nodes, 0) == 0
            &&& span_spec(self.nodes, 0) == self.curves.len()
            &&& forall|i: int|
                0 <= i < self.nodes.len() ==> #[trigger] self.node_good(
                    path,
                    i,
                    0,
                    self.curves.len() as int,
                )
        }
    }
}

/// The number of records below the node `i`: those of a leaf, and those of
/// both children of a branch.
pub open spec fn span_spec<S: Scalar>(nodes: Seq<Node<S>>, i: int) -> int
    decreases nodes.len() - i,
{
    if i < 0 || i >= nodes.len() {
        0
    } else {
        match nodes[i].data {
            Data::Empty => 0,
            Data::Leaf(leaf) => leaf.num_curves as int,
            Data::Branch(branch) => {
                if i < branch.left_then_right && branch.left_then_right + 1 < nodes.len() {
                    span_spec(nodes, branch.left_then_right as int) + span_spec(
                        nodes,
                        branch.left_then_right + 1,
                    )
                } else {
                    0
                }
            },
        }
    }
}

/// The index of the first record below the node `i`: that of a leaf, and
/// that of the left child of a branch.
pub open spec fn start_spec<S: Scalar>(nodes: Seq<Node<S>>, i: int) -> int
    decreases nodes.len() - i,
{
    if i < 0 || i >= nodes.len() {
        0
    } else {
        match nodes[i].data {
            Data::Empty => 0,
            Data::Leaf(leaf) => leaf.first_curve as int,
            Data::Branch(branch) => {
                if i < branch.left_then_right && branch.left_then_right + 1 < nodes.len() {
                    start_spec(nodes, branch.left_then_right as int)
                } else {
                    0
                }
            },
        }
    }
}

/// Whether the leaves below the node `i` divide a range of records among
/// themselves without a gap: a leaf holds at least one record, and the
/// records of the right child of a branch start where those of its left
/// child end.
pub open spec fn tiled_spec<S: Scalar>(nodes: Seq<Node<S>>, i: int) -> bool
    decreases nodes.len() - i,
{
    if i < 0 || i >= nodes.len() {
        false
    } else {
        match nodes[i].data {
            Data::Empty => false,
            Data::Leaf(leaf) => leaf.num_curves >= 1,
            Data::Branch(branch) => {
                &&& i < branch.left_then_right
                &&& branch.left_then_right + 1 < nodes.len()
                &&& tiled_spec(nodes, branch.left_then_right as int)
                &&& tiled_spec(nodes, branch.left_then_right + 1)
                &&& start_spec(nodes, branch.left_then_right + 1) == start_spec(
                    nodes,
                    branch.left_then_right as int,
                ) + span_spec(nodes, branch.left_then_right as int)
            },
        }
    }
}

/// What lies below a node depends on the nodes below it alone. Where two
/// arrays agree on the node `root` and on the nodes `lo .. hi`, and the
/// children of these nodes are among `lo .. hi`, the node `i` among them has
/// the same records below it in both.
pub proof fn lemma_tiled_frame<S: Scalar>(
    a: Seq<Node<S>>,
    b: Seq<Node<S>>,
    root: int,
    lo: int,
    hi: int,
    i: int,
)
    requires
        0 <= root < lo <= hi,
        hi <= a.len(),
        hi <= b.len(),
        a[root] == b[root],
        forall|k: int| lo <= k < hi ==> a[k] == b[k],
        forall|k: int|
            (k == root || lo <= k < hi) ==> (#[trigger] a[k].data matches Data::Branch(branch) ==> k
                < branch.left_then_right && lo <= branch.left_then_right && branch.left_then_right
                + 1 < hi),
        i == root || lo <= i < hi,
    ensures
        span_spec(a, i) == span_spec(b, i),
        start_spec(a, i) == start_spec(b, i),
        tiled_spec(a, i) == tiled_spec(b, i),
    decreases a.len() - i,
{
    match a[i].data {
        Data::Branch(branch) => {
            lemma_tiled_frame(a, b, root, lo, hi, branch.left_then_right as int);
            lemma_tiled_frame(a, b, root, lo, hi, branch.left_then_right + 1);
        },
        _ => {},
    }
}

/// The leaves at and below the node `current` whose bounds, and the bounds of
/// every node on the way down to them, meet `bounds`; the node `origin` and
/// what lies below it are left out. The leaves come in the order of a walk
/// that takes the left child first.
pub open spec fn collect_spec<S: Scalar>(nodes: Seq<Node<S>>, origin: int, bounds: Rect<S>, current: int) -> Seq<
    (u32, Leaf),
>
    decreases nodes.len() - current,
{
    if current < 0 || current >= nodes.len() || current == origin {
        Seq::empty()
    } else if !nodes[current].bbox.intersects_with_spec(bounds) {
        Seq::empty()
    } else {
        match nodes[current].data {
            Data::Empty => Seq::empty(),
            Data::Leaf(leaf) => seq![(current as u32, leaf)],
            Data::Branch(branch) => {
                if current < branch.left_then_right && branch.left_then_right + 1 < nodes.len() {
                    collect_spec(nodes, origin, bounds, branch.left_then_right as int) + collect_spec(
                        nodes,
                        origin,
                        bounds,
                        branch.left_then_right + 1,
                    )
                } else {
                    Seq::empty()
                }
            },
        }
    }
}

/// Every entry of a collection is a leaf of the tree, with its index.
pub proof fn lemma_collect_yields_leaves<S: Scalar>(
    nodes: Seq<Node<S>>,
    origin: int,
    bounds: Rect<S>,
    current: int,
)
    requires
        nodes.len() <= u32::MAX,
    ensures
        forall|j: int|
            0 <= j < collect_spec(nodes, origin, bounds, current).len() ==> {
                let entry = #[trigger] collect_spec(nodes, origin, bounds, current)[j];
                entry.0 < nodes.len() && entry.0 != origin && nodes[entry.0 as int].data == Data::Leaf(
                    entry.1,
                )
            },
    decreases nodes.len() - current,
{
    if 0 <= current < nodes.len() && current != origin && nodes[current].bbox.intersects_with_spec(
        bounds,
    ) {
        match nodes[current].data {
            Data::Branch(branch) => {
                if current < branch.left_then_right && branch.left_then_right + 1 < nodes.len() {
                    lemma_collect_yields_leaves(nodes, origin, bounds, branch.left_then_right as int);
                    lemma_collect_yields_leaves(nodes, origin, bounds, branch.left_then_right + 1);
                }
            },
            _ => {},
        }
    }
}

/// The bounds of a range depend on the records of the range alone.
pub proof fn lemma_bounds_from_frame<S: Scalar>(
    a: Seq<Curve<S>>,
    b: Seq<Curve<S>>,
    path: PathModel<S>,
    k: int,
    end: int,
    acc: Rect<S>,
)
    requires
        0 <= k,
        end <= a.len(),
        end <= b.len(),
        forall|i: int| k <= i < end ==> a[i] == b[i],
    ensures
        bounds_from_spec(a, path, k, end, acc) == bounds_from_spec(b, path, k, end, acc),
    decreases end - k,
{
    if k < end {
        lemma_bounds_from_frame(
            a,
            b,
            path,
            k + 1,
            end,
            acc.union_spec(record_bounds_spec(path, a[k])),
        );
    }
}

/// The bounds of a range depend on the records of the range alone.
pub proof fn lemma_bounds_frame<S: Scalar>(
    a: Seq<Curve<S>>,
    b: Seq<Curve<S>>,
    path: PathModel<S>,
    first: int,
    end: int,
)
    requires
        0 <= first,
        end <= a.len(),
        end <= b.len(),
        forall|i: int| first <= i < end ==> a[i] == b[i],
    ensures
        bounds_spec(a, path, first, end) == bounds_spec(b, path, first, end),
{
    if first < end {
        lemma_bounds_from_frame(a, b, path, first + 1, end, record_bounds_spec(path, a[first]));
    }
}

/// Exchanging two records keeps all of them.
pub proof fn lemma_swapped_keeps_records<S: Scalar>(curves: Seq<Curve<S>>, i: int, j: int)
    requires
        0 <= i < curves.len(),
        0 <= j < curves.len(),
    ensures
        swapped_spec(curves, i, j).to_multiset() == curves.to_multiset(),
        swapped_spec(curves, i, j).len() == curves.len(),
{
    broadcast use vstd::seq_lib::group_to_multiset_ensures;

    let once = curves.update(i, curves[j]);
    vstd::seq_lib::to_multiset_update(curves, i, curves[j]);
    vstd::seq_lib::to_multiset_update(once, j, curves[i]);
    assert(once[j] == curves[j]);
    assert(swapped_spec(curves, i, j).to_multiset() =~= curves.to_multiset());
}

/// A partition stays within its range and divides it: the right side
/// starts within `i ..= j + 1`, every record before it is below the
/// position and no record from it on is, the records outside of `i ..= j`
/// stay where they are, and all records are kept.
pub proof fn lemma_partition<S: Scalar>(
    curves: Seq<Curve<S>>,
    axis: SplitAxis,
    position: S,
    i: int,
    j: int,
)
    requires
        0 <= i,
        i <= j + 1,
        j < curves.len(),
    ensures
        ({
            let (after, middle) = partition_spec(curves, axis, position, i, j);
            &&& i <= middle <= j + 1
            &&& after.len() == curves.len()
            &&& after.to_multiset() == curves.to_multiset()
            &&& forall|k: int| 0 <= k < curves.len() && !(i <= k <= j) ==> after[k] == curves[k]
            &&& forall|k: int|
                i <= k < middle ==> axis_value_spec(#[trigger] after[k], axis).lt_spec(position)
            &&& forall|k: int|
                middle <= k <= j ==> !axis_value_spec(#[trigger] after[k], axis).lt_spec(position)
        }),
    decreases j - i + 1,
{
    if i <= j {
        if axis_value_spec(curves[i], axis).lt_spec(position) {
            lemma_partition(curves, axis, position, i + 1, j);
            let (after, middle) = partition_spec(curves, axis, position, i + 1, j);
            assert(after[i] == curves[i]);
        } else {
            lemma_swapped_keeps_records(curves, i, j);
            let swapped = swapped_spec(curves, i, j);
            lemma_partition(swapped, axis, position, i, j - 1);
            let (after, middle) = partition_spec(swapped, axis, position, i, j - 1);
            assert(after[j] == swapped[j]);
            assert(swapped[j] == curves[i]);
        }
    }
}

/// Records that are valid stay valid in any other order.
pub proof fn lemma_reordered_records_valid<S: Scalar>(
    path: PathModel<S>,
    before: Seq<Curve<S>>,
    after: Seq<Curve<S>>,
)
    requires
        after.to_multiset() == before.to_multiset(),
        forall|k: int| 0 <= k < before.len() ==> record_valid_spec(path, #[trigger] before[k]),
    ensures
        forall|k: int| 0 <= k < after.len() ==> record_valid_spec(path, #[trigger] after[k]),
{
    broadcast use vstd::seq_lib::group_to_multiset_ensures;

    assert forall|k: int| 0 <= k < after.len() implies record_valid_spec(path, #[trigger] after[k]) by {
        assert(after.contains(after[k]));
        assert(after.to_multiset().count(after[k]) > 0);
        assert(before.contains(after[k]));
    }
}

/// Once both children of a branch have been divided, the leaves below the
/// branch divide its records among themselves.
pub proof fn lemma_children_tile<S: Scalar>(
    after_left: BvhModel<S>,
    after_right: BvhModel<S>,
    done: BvhModel<S>,
    path: PathModel<S>,
    idx: int,
    left_idx: int,
    first: int,
    middle: int,
    end: int,
)
    requires
        0 <= idx < left_idx <= u32::MAX,
        left_idx + 2 <= after_left.nodes.len() <= after_right.nodes.len(),
        after_right.nodes[idx].data == Data::Branch(Branch { left_then_right: left_idx as u32 }),
        forall|i: int|
            (i == left_idx || left_idx + 2 <= i < after_left.nodes.len())
                ==> #[trigger] after_left.node_good(path, i, first, middle),
        after_left.nodes[left_idx].data matches Data::Branch(b) ==> b.left_then_right >= left_idx
            + 2,
        forall|i: int|
            0 <= i < after_left.nodes.len() && i != left_idx + 1 ==> after_right.nodes[i]
                == after_left.nodes[i],
        forall|i: int|
            (i == left_idx + 1 || after_left.nodes.len() <= i < after_right.nodes.len())
                ==> #[trigger] after_right.node_good(path, i, middle, end),
        done.nodes.len() == after_right.nodes.len(),
        done.nodes[idx].data == after_right.nodes[idx].data,
        forall|i: int| 0 <= i < done.nodes.len() && i != idx ==> done.nodes[i] == after_right.nodes[i],
        tiled_spec(after_left.nodes, left_idx),
        start_spec(after_left.nodes, left_idx) == first,
        span_spec(after_left.nodes, left_idx) == middle - first,
        tiled_spec(after_right.nodes, left_idx + 1),
        start_spec(after_right.nodes, left_idx + 1) == middle,
        span_spec(after_right.nodes, left_idx + 1) == end - middle,
    ensures
        tiled_spec(done.nodes, idx),
        start_spec(done.nodes, idx) == first,
        span_spec(done.nodes, idx) == end - first,
{
    let n2 = after_left.nodes.len() as int;
    let n3 = after_right.nodes.len() as int;
    // The left subtree is the same before and after the right child was
    // divided.
    assert forall|k: int| (k == left_idx || left_idx + 2 <= k < n2) implies (
    #[trigger] after_left.nodes[k].data matches Data::Branch(branch) ==> k < branch.left_then_right
        && left_idx + 2 <= branch.left_then_right && branch.left_then_right + 1 < n2) by {
        assert(after_left.node_good(path, k, first, middle));
    }
    lemma_tiled_frame(after_left.nodes, after_right.nodes, left_idx, left_idx + 2, n2, left_idx);
    // Both subtrees are the same before and after the branch took its
    // bounds.
    assert forall|k: int| (k == left_idx || left_idx + 1 <= k < n3) implies (
    #[trigger] after_right.nodes[k].data matches Data::Branch(branch) ==> k < branch.left_then_right
        && left_idx + 1 <= branch.left_then_right && branch.left_then_right + 1 < n3) by {
        if k == left_idx + 1 || k >= n2 {
            assert(after_right.node_good(path, k, middle, end));
        } else {
            assert(after_left.node_good(path, k, first, middle));
            assert(after_right.nodes[k] == after_left.nodes[k]);
        }
    }
    lemma_tiled_frame(after_right.nodes, done.nodes, left_idx, left_idx + 1, n3, left_idx);
    lemma_tiled_frame(after_right.nodes, done.nodes, left_idx, left_idx + 1, n3, left_idx + 1);
}

/// Once both children of a branch have been divided, every node below the
/// branch is sound, and so is the branch with the union of their bounds.
///
/// `after_left` is the tree when the left child, at `left_idx`, has been
/// divided; it holds the records `first .. middle`. `after_right` is the
/// tree when the right child, which holds `middle .. end`, has been divided
/// as well, and `done` is `after_right` with the new bounds of the branch at
/// `idx`.
pub proof fn lemma_children_join<S: Scalar>(
    after_left: BvhModel<S>,
    after_right: BvhModel<S>,
    done: BvhModel<S>,
    path: PathModel<S>,
    idx: int,
    left_idx: int,
    first: int,
    middle: int,
    end: int,
)
    requires
        0 <= first <= middle <= end <= after_left.curves.len(),
        after_right.curves.len() == after_left.curves.len(),
        0 <= idx < left_idx <= u32::MAX,
        left_idx + 2 <= after_left.nodes.len() <= after_right.nodes.len(),
        after_right.nodes[idx].data == Data::Branch(Branch { left_then_right: left_idx as u32 }),
        forall|i: int|
            (i == left_idx || left_idx + 2 <= i < after_left.nodes.len())
                ==> #[trigger] after_left.node_good(path, i, first, middle),
        after_left.nodes[left_idx].data matches Data::Branch(b) ==> b.left_then_right >= left_idx
            + 2,
        forall|i: int|
            0 <= i < after_left.nodes.len() && i != left_idx + 1 ==> after_right.nodes[i]
                == after_left.nodes[i],
        forall|i: int|
            (i == left_idx + 1 || after_left.nodes.len() <= i < after_right.nodes.len())
                ==> #[trigger] after_right.node_good(path, i, middle, end),
        forall|k: int|
            0 <= k < after_left.curves.len() && !(middle <= k < end) ==> after_right.curves[k]
                == after_left.curves[k],
        done.curves == after_right.curves,
        done.nodes == after_right.nodes.update(
            idx,
            Node {
                bbox: after_right.nodes[left_idx].bbox.union_spec(after_right.nodes[left_idx + 1].bbox),
                last_touched: after_right.nodes[idx].last_touched,
                data: after_right.nodes[idx].data,
            },
        ),
        tiled_spec(after_left.nodes, left_idx),
        start_spec(after_left.nodes, left_idx) == first,
        span_spec(after_left.nodes, left_idx) == middle - first,
        tiled_spec(after_right.nodes, left_idx + 1),
        start_spec(after_right.nodes, left_idx + 1) == middle,
        span_spec(after_right.nodes, left_idx + 1) == end - middle,
    ensures
        forall|i: int|
            (i == idx || left_idx <= i < done.nodes.len()) ==> #[trigger] done.node_good(
                path,
                i,
                first,
                end,
            ),
        tiled_spec(done.nodes, idx),
        start_spec(done.nodes, idx) == first,
        span_spec(done.nodes, idx) == end - first,
{
    lemma_children_tile(after_left, after_right, done, path, idx, left_idx, first, middle, end);
    assert forall|i: int| (i == idx || left_idx <= i < done.nodes.len()) implies #[trigger] done.node_good(
        path,
        i,
        first,
        end,
    ) by {
        if i == idx {
        } else if i == left_idx + 1 || i >= after_left.nodes.len() {
            assert(after_right.node_good(path, i, middle, end));
            assert(done.nodes[i] == after_right.nodes[i]);
        } else {
            assert(after_left.node_good(path, i, first, middle));
            assert(after_right.nodes[i] == after_left.nodes[i]);
            assert(done.nodes[i] == after_left.nodes[i]);
            match done.nodes[i].data {
                Data::Leaf(leaf) => {
                    lemma_bounds_frame(
                        after_left.curves,
                        after_right.curves,
                        path,
                        leaf.first_curve as int,
                        leaf.first_curve + leaf.num_curves,
                    );
                },
                Data::Branch(b) => {
                    assert(b.left_then_right >= left_idx + 2);
                    assert(after_right.nodes[b.left_then_right as int]
                        == after_left.nodes[b.left_then_right as int]);
                    assert(after_right.nodes[b.left_then_right + 1]
                        == after_left.nodes[b.left_then_right + 1]);
                },
                _ => {},
            }
        }
    }
}

/// A tree: the nodes, root first, and the records that its leaves divide
/// among themselves.
pub struct CurveBvh<S: Scalar> {
    pub nodes: Vec<Node<S>>,
    pub curves: Vec<Curve<S>>,
}

impl<S: Scalar> View for CurveBvh<S> {
    type V = BvhModel<S>;

    open spec fn view(&self) -> BvhModel<S> {
        BvhModel { nodes: self.nodes@, curves: self.curves@ }
    }
}

/// The storage from which a tree is built, kept from one build to the next.
/// Its view is what it holds: the nodes and the records of the tree that
/// was built from it last, or nothing where it is new. A build starts by
/// emptying it, so that what it holds has no part in the tree that is built.
pub struct Builder<S: Scalar> {
    nodes: Vec<Node<S>>,
    curves: Vec<Curve<S>>,
}

impl<S: Scalar> View for Builder<S> {
    type V = BvhModel<S>;

    closed spec fn view(&self) -> BvhModel<S> {
        BvhModel { nodes: self.nodes@, curves: self.curves@ }
    }
}

/// The coordinate of the centroid of `c` on `axis`.
pub fn axis_value<S: Scalar>(c: &Curve<S>, axis: SplitAxis) -> (r: S)
    ensures
        r == axis_value_spec(*c, axis),
{
    match axis {
        SplitAxis::X => c.centroid.x,
        SplitAxis::Y => c.centroid.y,
    }
}

/// The coarse bounds of the curve that the record names.
pub fn record_bounds<S: Scalar>(path: &Path<S>, c: &Curve<S>) -> (r: Rect<S>)
    requires
        path@.x.len() == path@.y.len(),
        record_valid_spec(path@, *c),
    ensures
        r == record_bounds_spec(path@, *c),
{
    path.curve_at(c.first_point as usize).coarse_bounds()
}

/// The union of the bounds of the records `first .. end`.
pub fn compute_bounds<S: Scalar>(curves: &Vec<Curve<S>>, path: &Path<S>, first: usize, end: usize) -> (r:
    Rect<S>)
    requires
        path@.x.len() == path@.y.len(),
        end <= curves@.len(),
        forall|k: int| 0 <= k < curves@.len() ==> record_valid_spec(path@, #[trigger] curves@[k]),
    ensures
        r == bounds_spec(curves@, path@, first as int, end as int),
{
    if first >= end {
        return Rect::empty();
    }
    let mut acc = record_bounds(path, &curves[first]);
    let mut k: usize = first + 1;
    while k < end
        invariant
            first < k <= end <= curves@.len(),
            path@.x.len() == path@.y.len(),
            forall|k: int| 0 <= k < curves@.len() ==> record_valid_spec(path@, #[trigger] curves@[k]),
            bounds_from_spec(curves@, path@, k as int, end as int, acc) == bounds_spec(
                curves@,
                path@,
                first as int,
                end as int,
            ),
        decreases end - k,
    {
        acc = acc.union(record_bounds(path, &curves[k]));
        k = k + 1;
    }
    acc
}

/// The cost of dividing the records `first .. end` at `position` on `axis`.
pub fn evaluate_sah<S: Scalar>(
    curves: &Vec<Curve<S>>,
    path: &Path<S>,
    first: usize,
    end: usize,
    axis: SplitAxis,
    position: S,
) -> (r: S)
    requires
        path@.x.len() == path@.y.len(),
        first <= end <= curves@.len(),
        end - first <= u16::MAX,
        forall|k: int| 0 <= k < curves@.len() ==> record_valid_spec(path@, #[trigger] curves@[k]),
    ensures
        r == sah_spec(curves@, path@, first as int, end as int, axis, position),
{
    let mut sides = Sides { left: None, num_left: 0, right: None, num_right: 0 };
    let mut k: usize = first;
    while k < end
        invariant
            first <= k <= end <= curves@.len(),
            end - first <= u16::MAX,
            sides.num_left + sides.num_right == k - first,
            path@.x.len() == path@.y.len(),
            forall|k: int| 0 <= k < curves@.len() ==> record_valid_spec(path@, #[trigger] curves@[k]),
            sides_from_spec(curves@, path@, axis, position, k as int, end as int, sides)
                == sides_from_spec(
                curves@,
                path@,
                axis,
                position,
                first as int,
                end as int,
                Sides { left: None, num_left: 0, right: None, num_right: 0 },
            ),
        decreases end - k,
    {
        let bounds = record_bounds(path, &curves[k]);
        if axis_value(&curves[k], axis).lt(position) {
            let grown = match sides.left {
                Some(b) => b.union(bounds),
                None => bounds,
            };
            sides = Sides {
                left: Some(grown),
                num_left: sides.num_left + 1,
                right: sides.right,
                num_right: sides.num_right,
            };
        } else {
            let grown = match sides.right {
                Some(b) => b.union(bounds),
                None => bounds,
            };
            sides = Sides {
                left: sides.left,
                num_left: sides.num_left,
                right: Some(grown),
                num_right: sides.num_right + 1,
            };
        }
        k = k + 1;
    }
    let left_cost = match sides.left {
        Some(b) => S::from_int(sides.num_left as i32).mul(b.area()),
        None => zero(),
    };
    let right_cost = match sides.right {
        Some(b) => S::from_int(sides.num_right as i32).mul(b.area()),
        None => zero(),
    };
    left_cost.add(right_cost)
}

/// Tries the centroid of every record of `first .. end` as a position on
/// `axis` and returns the cheapest division, `best` included.
pub fn best_on_axis<S: Scalar>(
    curves: &Vec<Curve<S>>,
    path: &Path<S>,
    first: usize,
    end: usize,
    axis: SplitAxis,
    best: Split<S>,
) -> (r: Split<S>)
    requires
        path@.x.len() == path@.y.len(),
        first <= end <= curves@.len(),
        end - first <= u16::MAX,
        forall|k: int| 0 <= k < curves@.len() ==> record_valid_spec(path@, #[trigger] curves@[k]),
    ensures
        r == best_from_spec(curves@, path@, first as int, end as int, axis, first as int, best),
{
    let mut cheapest = best;
    let mut k: usize = first;
    while k < end
        invariant
            first <= k <= end <= curves@.len(),
            end - first <= u16::MAX,
            path@.x.len() == path@.y.len(),
            forall|k: int| 0 <= k < curves@.len() ==> record_valid_spec(path@, #[trigger] curves@[k]),
            best_from_spec(curves@, path@, first as int, end as int, axis, k as int, cheapest)
                == best_from_spec(
                curves@,
                path@,
                first as int,
                end as int,
                axis,
                first as int,
                best,
            ),
        decreases end - k,
    {
        let position = axis_value(&curves[k], axis);
        let cost = evaluate_sah(curves, path, first, end, axis, position);
        if cost.lt(cheapest.cost) {
            cheapest = Split { axis, position, cost };
        }
        k = k + 1;
    }
    cheapest
}

/// Finds the cheapest division of the records `first .. end`.
pub fn find_split_axis<S: Scalar>(curves: &Vec<Curve<S>>, path: &Path<S>, first: usize, end: usize) -> (r:
    Split<S>)
    requires
        path@.x.len() == path@.y.len(),
        first <= end <= curves@.len(),
        end - first <= u16::MAX,
        forall|k: int| 0 <= k < curves@.len() ==> record_valid_spec(path@, #[trigger] curves@[k]),
    ensures
        r == find_split_spec(curves@, path@, first as int, end as int),
{
    let start = Split { axis: SplitAxis::X, position: zero(), cost: S::max_value() };
    let on_x = best_on_axis(curves, path, first, end, SplitAxis::X, start);
    best_on_axis(curves, path, first, end, SplitAxis::Y, on_x)
}

/// Partitions the records `first .. end` about `position` on `axis`, in
/// place, and returns the index at which the right side starts.
pub fn partition<S: Scalar>(
    curves: &mut Vec<Curve<S>>,
    axis: SplitAxis,
    position: S,
    first: usize,
    end: usize,
) -> (r: usize)
    requires
        first <= end <= old(curves)@.len(),
    ensures
        (final(curves)@, r as int) == partition_spec(
            old(curves)@,
            axis,
            position,
            first as int,
            end - 1,
        ),
        first <= r <= end,
        final(curves)@.len() == old(curves)@.len(),
{
    let mut i: usize = first;
    let mut e: usize = end;
    proof {
        lemma_partition(curves@, axis, position, first as int, end - 1);
    }
    while i < e
        invariant
            first <= i <= e <= end,
            end <= curves@.len(),
            curves@.len() == old(curves)@.len(),
            partition_spec(curves@, axis, position, i as int, e - 1) == partition_spec(
                old(curves)@,
                axis,
                position,
                first as int,
                end - 1,
            ),
        decreases e - i,
    {
        if axis_value(&curves[i], axis).lt(position) {
            i = i + 1;
        } else {
            let a = curves[i];
            let b = curves[e - 1];
            curves.set(i, b);
            curves.set(e - 1, a);
            e = e - 1;
        }
    }
    i
}

/// Divides the leaf at `idx`, which holds the records
/// `first .. first + count`, as far as it pays.
pub fn subdivide<S: Scalar>(
    nodes: &mut Vec<Node<S>>,
    curves: &mut Vec<Curve<S>>,
    path: &Path<S>,
    idx: usize,
    first: usize,
    count: usize,
)
    requires
        path@.x.len() == path@.y.len(),
        idx < old(nodes)@.len(),
        count >= 1,
        first + count <= old(curves)@.len(),
        old(curves)@.len() <= u16::MAX,
        old(nodes)@.len() + 2 * (count - 1) <= u32::MAX,
        forall|k: int|
            0 <= k < old(curves)@.len() ==> record_valid_spec(path@, #[trigger] old(curves)@[k]),
        (BvhModel { nodes: old(nodes)@, curves: old(curves)@ }).node_good(
            path@,
            idx as int,
            first as int,
            first + count,
        ),
        old(nodes)@[idx as int].data == Data::Leaf(
            Leaf { first_curve: first as u16, num_curves: count as u16 },
        ),
    ensures
        (BvhModel { nodes: final(nodes)@, curves: final(curves)@ }) == subdivide_spec(
            BvhModel { nodes: old(nodes)@, curves: old(curves)@ },
            path@,
            idx as int,
            first as int,
            count as int,
        ),
        final(curves)@.len() == old(curves)@.len(),
        final(curves)@.to_multiset() == old(curves)@.to_multiset(),
        forall|k: int|
            0 <= k < final(curves)@.len() ==> record_valid_spec(path@, #[trigger] final(curves)@[k]),
        forall|k: int|
            0 <= k < old(curves)@.len() && !(first <= k < first + count) ==> final(curves)@[k] == old(
                curves,
            )@[k],
        old(nodes)@.len() <= final(nodes)@.len() <= old(nodes)@.len() + 2 * (count - 1),
        forall|i: int|
            0 <= i < old(nodes)@.len() && i != idx ==> final(nodes)@[i] == old(nodes)@[i],
        final(nodes)@[idx as int].data matches Data::Branch(b) ==> b.left_then_right >= old(
            nodes,
        )@.len(),
        tiled_spec(final(nodes)@, idx as int),
        start_spec(final(nodes)@, idx as int) == first,
        span_spec(final(nodes)@, idx as int) == count,
        forall|i: int|
            (i == idx || old(nodes)@.len() <= i < final(nodes)@.len()) ==> #[trigger] (BvhModel {
                nodes: final(nodes)@,
                curves: final(curves)@,
            }).node_good(path@, i, first as int, first + count),
    decreases count,
{
    if count <= 1 {
        return ;
    }
    let end = first + count;
    let ghost tree0 = BvhModel { nodes: nodes@, curves: curves@ };
    let split = find_split_axis(curves, path, first, end);
    let node_cost = S::from_int(count as i32).mul(nodes[idx].bbox.area());
    if !split.cost.lt(node_cost) {
        return ;
    }
    proof {
        lemma_partition(curves@, split.axis, split.position, first as int, end - 1);
    }
    let middle = partition(curves, split.axis, split.position, first, end);
    let left_count = middle - first;
    let ghost curves1 = curves@;
    proof {
        lemma_reordered_records_valid(path@, tree0.curves, curves1);
    }
    if left_count == 0 || left_count >= count {
        let bbox = compute_bounds(curves, path, first, end);
        let node = Node { bbox, last_touched: nodes[idx].last_touched, data: nodes[idx].data };
        nodes.set(idx, node);
        return ;
    }
    let left_idx = nodes.len();
    let left_bbox = compute_bounds(curves, path, first, middle);
    let right_bbox = compute_bounds(curves, path, middle, end);
    let branch = Node {
        bbox: nodes[idx].bbox,
        last_touched: nodes[idx].last_touched,
        data: Data::Branch(Branch { left_then_right: left_idx as u32 }),
    };
    nodes.set(idx, branch);
    nodes.push(
        Node {
            bbox: left_bbox,
            last_touched: 0,
            data: Data::Leaf(Leaf { first_curve: first as u16, num_curves: left_count as u16 }),
        },
    );
    nodes.push(
        Node {
            bbox: right_bbox,
            last_touched: 0,
            data: Data::Leaf(
                Leaf { first_curve: middle as u16, num_curves: (count - left_count) as u16 },
            ),
        },
    );
    let ghost nodes1 = nodes@;
    subdivide(nodes, curves, path, left_idx, first, left_count);
    let ghost nodes2 = nodes@;
    let ghost curves2 = curves@;
    proof {
        lemma_bounds_frame(curves1, curves2, path@, middle as int, end as int);
    }
    subdivide(nodes, curves, path, left_idx + 1, middle, count - left_count);
    let ghost nodes3 = nodes@;
    let ghost curves3 = curves@;
    let joined = Node {
        bbox: nodes[left_idx].bbox.union(nodes[left_idx + 1].bbox),
        last_touched: nodes[idx].last_touched,
        data: nodes[idx].data,
    };
    nodes.set(idx, joined);
    proof {
        lemma_children_join(
            BvhModel { nodes: nodes2, curves: curves2 },
            BvhModel { nodes: nodes3, curves: curves3 },
            BvhModel { nodes: nodes@, curves: curves@ },
            path@,
            idx as int,
            left_idx as int,
            first as int,
            middle as int,
            end as int,
        );
    }
}

/// A sound tree over a well formed path can be walked.
pub proof fn lemma_wf_is_shaped<S: Scalar>(tree: BvhModel<S>, path: PathModel<S>)
    requires
        path.wf(),
        tree.wf(path),
    ensures
        tree.shaped(path),
{
    lemma_points_and_curves(path.segments, path.segments.len() as int);
    if tree.curves.len() > 0 {
        assert forall|i: int| 0 <= i < tree.nodes.len() implies match (#[trigger] tree.nodes[i]).data {
            Data::Empty => true,
            Data::Leaf(leaf) => leaf.first_curve + leaf.num_curves <= tree.curves.len(),
            Data::Branch(branch) => i < branch.left_then_right && branch.left_then_right + 1
                < tree.nodes.len(),
        } by {
            assert(tree.node_good(path, i, 0, tree.curves.len() as int));
        }
    }
}

impl<S: Scalar> CurveBvh<S> {
    /// The curves of a leaf, each with its segment and the position of its
    /// first point.
    pub fn curves_in(&self, leaf: Leaf, path: &Path<S>) -> (r: Vec<(Cubic<S>, u16, u16)>)
        requires
            self@.shaped(path@),
            leaf.first_curve + leaf.num_curves <= self@.curves.len(),
        ensures
            r@ == self@.curves_in(leaf, path@),
    {
        let mut out: Vec<(Cubic<S>, u16, u16)> = Vec::new();
        let first = leaf.first_curve as usize;
        let mut i: usize = 0;
        while i < leaf.num_curves as usize
            invariant
                0 <= i <= leaf.num_curves,
                first == leaf.first_curve,
                self@.shaped(path@),
                leaf.first_curve + leaf.num_curves <= self@.curves.len(),
                out@.len() == i,
                forall|j: int| 0 <= j < i ==> out@[j] == self@.curves_in(leaf, path@)[j],
            decreases leaf.num_curves - i,
        {
            let record = self.curves[first + i];
            out.push(
                (path.curve_at(record.first_point as usize), record.segment_id, record.first_point),
            );
            i = i + 1;
        }
        assert(out@ =~= self@.curves_in(leaf, path@));
        out
    }

    /// Appends to `buffer` the leaves at and below `current_node_idx` whose
    /// bounds meet `bounds`, the node `origin_idx` left out.
    pub fn intersect(
        &self,
        origin_idx: u32,
        bounds: Rect<S>,
        buffer: &mut Vec<(u32, Leaf)>,
        current_node_idx: u32,
    )
        requires
            self@.nodes.len() <= u32::MAX,
        ensures
            final(buffer)@ == old(buffer)@ + collect_spec(
                self@.nodes,
                origin_idx as int,
                bounds,
                current_node_idx as int,
            ),
        decreases self@.nodes.len() - current_node_idx,
    {
        if current_node_idx as usize >= self.nodes.len() || current_node_idx == origin_idx {
            assert(buffer@ =~= old(buffer)@ + Seq::<(u32, Leaf)>::empty());
            return ;
        }
        let node = &self.nodes[current_node_idx as usize];
        if !node.bbox.intersects_with(&bounds) {
            assert(buffer@ =~= old(buffer)@ + Seq::<(u32, Leaf)>::empty());
            return ;
        }
        match node.data {
            Data::Empty => {
                assert(buffer@ =~= old(buffer)@ + Seq::<(u32, Leaf)>::empty());
            },
            Data::Leaf(leaf) => {
                buffer.push((current_node_idx, leaf));
                assert(buffer@ =~= old(buffer)@ + seq![(current_node_idx, leaf)]);
            },
            Data::Branch(branch) => {
                if current_node_idx < branch.left_then_right && (branch.left_then_right as usize)
                    < self.nodes.len() - 1 {
                    self.intersect(origin_idx, bounds, buffer, branch.left_then_right);
                    self.intersect(origin_idx, bounds, buffer, branch.left_then_right + 1);
                    assert(buffer@ =~= old(buffer)@ + (collect_spec(
                        self@.nodes,
                        origin_idx as int,
                        bounds,
                        branch.left_then_right as int,
                    ) + collect_spec(
                        self@.nodes,
                        origin_idx as int,
                        bounds,
                        branch.left_then_right + 1,
                    )));
                } else {
                    assert(buffer@ =~= old(buffer)@ + Seq::<(u32, Leaf)>::empty());
                }
            },
        }
    }

    /// Fills `buffer` with the leaves whose bounds meet those of the node
    /// `node_idx`, the node itself left out.
    pub fn find_intersecting_with(&self, node_idx: u32, buffer: &mut Vec<(u32, Leaf)>)
        requires
            node_idx < self@.nodes.len(),
            self@.nodes.len() <= u32::MAX,
        ensures
            final(buffer)@ == self@.neighbours(node_idx as int),
    {
        buffer.clear();
        self.intersect(node_idx, self.nodes[node_idx as usize].bbox, buffer, 0);
        assert(buffer@ =~= self@.neighbours(node_idx as int));
    }

    /// Marks the node `idx` as touched in the pass `generation`.
    pub fn touch(&mut self, idx: u32, generation: u32)
        requires
            idx < old(self)@.nodes.len(),
        ensures
            final(self)@ == old(self)@.touched(idx as int, generation),
    {
        let node = self.nodes[idx as usize];
        self.nodes.set(
            idx as usize,
            Node { bbox: node.bbox, last_touched: generation, data: node.data },
        );
    }

    /// Empty storage for a tree: it holds no node and no record.
    pub fn storage() -> (r: Builder<S>)
        ensures
            r@ == (BvhModel::<S> { nodes: Seq::empty(), curves: Seq::empty() }),
    {
        Builder { nodes: Vec::new(), curves: Vec::new() }
    }

    /// Gives the memory of the tree back, to build the next one from: the
    /// storage holds the nodes and the records of the tree.
    pub fn into_storage(self) -> (r: Builder<S>)
        ensures
            r@ == self@,
    {
        Builder { nodes: self.nodes, curves: self.curves }
    }
}

impl<S: Scalar> Builder<S> {
    /// Builds the tree of `path`.
    pub fn build(self, path: &Path<S>) -> (r: CurveBvh<S>)
        requires
            path@.wf(),
        ensures
            r@ == build_spec(path@),
            r@.wf(path@),
    {
        let mut nodes = self.nodes;
        let mut curves = self.curves;
        nodes.clear();
        curves.clear();
        let mut offset: usize = 0;
        let mut k: usize = 0;
        proof {
            lemma_points_and_curves(path@.segments, path@.segments.len() as int);
        }
        while k < path.segments.len()
            invariant
                0 <= k <= path.segments.len(),
                path@.wf(),
                offset == points_before_spec(path@.segments, k as int),
                curves@ == records_before_spec(path@, k as int),
                curves@.len() == curves_before_spec(path@.segments, k as int),
                forall|i: int| 0 <= i < curves@.len() ==> record_valid_spec(path@, #[trigger] curves@[i]),
            decreases path.segments.len() - k,
        {
            proof {
                lemma_points_before_monotonic(path@.segments, k + 1, path@.segments.len() as int);
                assert(segment_wf_spec(path@.segments[k as int]));
            }
            let n: usize = ((path.segments[k].length - 1) / 3) as usize;
            let ghost before = curves@;
            let mut i: usize = 0;
            while i < n
                invariant
                    0 <= i <= n,
                    k < path.segments.len(),
                    path@.wf(),
                    n == (path@.segments[k as int].length - 1) / 3,
                    offset == points_before_spec(path@.segments, k as int),
                    offset + path@.segments[k as int].length <= path@.x.len(),
                    (path@.segments[k as int].length - 1) % 3 == 0,
                    curves@ == before + segment_records_spec(path@, k as int, i as int),
                    forall|i: int|
                        0 <= i < curves@.len() ==> record_valid_spec(path@, #[trigger] curves@[i]),
                decreases n - i,
            {
                let first_point = offset + 3 * i;
                let record = Curve {
                    centroid: path.curve_at(first_point).coarse_bounds().centroid(),
                    segment_id: k as u16,
                    first_point: first_point as u16,
                };
                curves.push(record);
                proof {
                    assert(record == record_spec(path@, k as int, first_point as int));
                    assert(curves@ =~= before + segment_records_spec(path@, k as int, i + 1));
                }
                i = i + 1;
            }
            offset = offset + path.segments[k].length as usize;
            k = k + 1;
        }
        let count = curves.len();
        if count == 0 {
            nodes.push(Node { bbox: Rect::empty(), last_touched: 0, data: Data::Empty });
            return CurveBvh { nodes, curves };
        }
        let bbox = compute_bounds(&curves, path, 0, count);
        nodes.push(
            Node {
                bbox,
                last_touched: 0,
                data: Data::Leaf(Leaf { first_curve: 0, num_curves: count as u16 }),
            },
        );
        subdivide(&mut nodes, &mut curves, path, 0, 0, count);
        CurveBvh { nodes, curves }
    }
}

} // verus!
