//! Flattening: rewriting a path until no two of its curves cross.
//!
//! A pass builds the tree of the path, asks it for the leaves near each
//! leaf, and intersects the curves of the two. A curve that is crossed
//! within its range is queued to be replaced by its pieces. At the end of
//! the pass the queued replacements are applied, and the next pass starts
//! from the new path. Flattening ends with the first pass that finds
//! nothing to replace.
use crate::arrayvec::ArrayVec;
use crate::bezier::Cubic;
use crate::change_list::{
    lemma_apply_grows, lemma_growth_of_cuts, lemma_sorted_keeps_records, sorted_spec, ChangeError,
    ChangeList, ChangeListModel,
};
use crate::curve_bvh::{
    build_spec, lemma_collect_yields_leaves, lemma_wf_is_shaped, record_valid_spec, Builder, BvhModel,
    Curve, CurveBvh, Data, Leaf,
};
use crate::intersection::{find, find_spec, IntersectionError};
use crate::path::{
    lemma_points_before_monotonic, points_before_spec, segment_wf_spec, Path, PathModel, MAX_POINTS,
};
use crate::rect::Rect;
use crate::scalar::{approx_eq, approx_eq_spec, max, max_spec, min, min_spec, one, one_spec, zero, zero_spec, Scalar};
use vstd::prelude::*;

verus! {

/// The mark that a pass leaves on the nodes it has changed a curve below.
/// The tree of every pass is new and its marks are zero.
pub const GENERATION: u32 = 1;

/// Why flattening was given up.
#[derive(Clone, Copy, Debug, PartialEq)]
pub enum FlattenError<S: Scalar> {
    /// Two curves could not be intersected.
    Intersection(IntersectionError<S>),
    /// The replacements of a pass could not be queued or applied.
    Change(ChangeError),
}

/// The parameters at which two crossing curves are to be cut, each list in
/// rising order.
pub struct Crossing<S: Scalar> {
    pub a: Vec<S>,
    pub b: Vec<S>,
}

/// What a crossing holds, as plain sequences.
pub struct CrossingModel<S: Scalar> {
    pub a: Seq<S>,
    pub b: Seq<S>,
}

impl<S: Scalar> View for Crossing<S> {
    type V = CrossingModel<S>;

    open spec fn view(&self) -> CrossingModel<S> {
        CrossingModel { a: self.a@, b: self.b@ }
    }
}

/// A crossing that a curve has with a curve of another leaf: the node of
/// that leaf, the index of the record of that curve, and the cuts.
pub struct Hit<S: Scalar> {
    pub node: u32,
    pub curve: usize,
    pub crossing: Crossing<S>,
}

/// What a hit holds, as plain values.
pub struct HitModel<S: Scalar> {
    pub node: u32,
    pub curve: int,
    pub crossing: CrossingModel<S>,
}

impl<S: Scalar> View for Hit<S> {
    type V = HitModel<S>;

    open spec fn view(&self) -> HitModel<S> {
        HitModel { node: self.node, curve: self.curve as int, crossing: self.crossing@ }
    }
}

/// Whether the result `r` of a search says what `model` says: the same
/// error, or nothing found, or a find with the view `model` names.
pub open spec fn same_outcome<T: View, E>(r: Result<Option<T>, E>, model: Result<Option<T::V>, E>) -> bool {
    match model {
        Err(e) => r == Err::<Option<T>, E>(e),
        Ok(None) => r matches Ok(None),
        Ok(Some(m)) => r matches Ok(Some(v)) && v@ == m,
    }
}

/// Whether `t` lies within a curve: not within the shared tolerance of
/// either end of the parameter range.
pub open spec fn interior_spec<S: Scalar>(t: S) -> bool {
    !approx_eq_spec(t, zero_spec()) && !approx_eq_spec(t, one_spec())
}

/// Whether `t` lies within a curve: not within the shared tolerance of
/// either end of the parameter range.
pub fn interior<S: Scalar>(t: S) -> (r: bool)
    ensures
        r == interior_spec(t),
{
    !approx_eq(t, zero()) && !approx_eq(t, one())
}

/// Where `t` goes into `sorted`: behind the last entry that it is not
/// strictly below.
pub open spec fn place_spec<S: Scalar>(sorted: Seq<S>, t: S) -> int
    decreases sorted.len(),
{
    if sorted.len() == 0 {
        0
    } else if t.lt_spec(sorted.last()) {
        place_spec(sorted.drop_last(), t)
    } else {
        sorted.len() as int
    }
}

/// The cuts that the intersections from index `k` on add to `cuts`: of each
/// pair the parameter of the first curve, or of the second, where it lies
/// within the curve, put in its place in the rising order.
pub open spec fn splits_from_spec<S: Scalar>(pairs: Seq<(S, S)>, first_side: bool, k: int, cuts: Seq<S>) -> Seq<
    S,
>
    decreases pairs.len() - k,
{
    if k < 0 || k >= pairs.len() {
        cuts
    } else {
        let t = if first_side {
            pairs[k].0
        } else {
            pairs[k].1
        };
        splits_from_spec(
            pairs,
            first_side,
            k + 1,
            if interior_spec(t) {
                cuts.insert(place_spec(cuts, t), t)
            } else {
                cuts
            },
        )
    }
}

/// The parameters at which the intersections `pairs` cut the first curve,
/// or the second, in rising order.
pub open spec fn splits_spec<S: Scalar>(pairs: Seq<(S, S)>, first_side: bool) -> Seq<S> {
    splits_from_spec(pairs, first_side, 0, Seq::empty())
}

/// The cuts of a list of intersections, for one of the two curves.
pub fn splits<S: Scalar>(pairs: &ArrayVec<(S, S), 9>, first_side: bool) -> (r: Vec<S>)
    ensures
        r@ == splits_spec(pairs@, first_side),
{
    let mut cuts: Vec<S> = Vec::new();
    let mut k: usize = 0;
    while k < pairs.len()
        invariant
            0 <= k <= pairs@.len(),
            splits_from_spec(pairs@, first_side, k as int, cuts@) == splits_spec(pairs@, first_side),
        decreases pairs@.len() - k,
    {
        let pair = *pairs.get(k);
        let t = if first_side {
            pair.0
        } else {
            pair.1
        };
        if interior(t) {
            let mut j: usize = cuts.len();
            assert(cuts@.take(j as int) =~= cuts@);
            while j > 0 && t.lt(cuts[j - 1])
                invariant
                    0 <= j <= cuts.len(),
                    place_spec(cuts@, t) == place_spec(cuts@.take(j as int), t),
                decreases j,
            {
                assert(cuts@.take(j as int).drop_last() =~= cuts@.take(j - 1));
                j = j - 1;
            }
            cuts.insert(j, t);
        }
        k = k + 1;
    }
    cuts
}

/// Where the curves `c` and `other` are to be cut: nothing where they do
/// not meet within at least one of them; else the cuts of both.
pub open spec fn crossing_spec<S: Scalar>(c: Cubic<S>, other: Cubic<S>) -> Result<
    Option<CrossingModel<S>>,
    IntersectionError<S>,
> {
    match find_spec(c, other) {
        Err(e) => Err(e),
        Ok(pairs) => {
            let a = splits_spec(pairs, true);
            let b = splits_spec(pairs, false);
            if a.len() == 0 && b.len() == 0 {
                Ok(None)
            } else {
                Ok(Some(CrossingModel { a, b }))
            }
        },
    }
}

/// Where the curves `c` and `other` are to be cut: nothing where they do
/// not meet within at least one of them; else the cuts of both.
pub fn crossing<S: Scalar>(c: &Cubic<S>, other: &Cubic<S>) -> (r: Result<
    Option<Crossing<S>>,
    IntersectionError<S>,
>)
    ensures
        same_outcome(r, crossing_spec(*c, *other)),
{
    match find(c, other) {
        Err(e) => Err(e),
        Ok(pairs) => {
            let a = splits(&pairs, true);
            let b = splits(&pairs, false);
            if a.len() == 0 && b.len() == 0 {
                Ok(None)
            } else {
                Ok(Some(Crossing { a, b }))
            }
        },
    }
}

/// Whether `first` is the first curve of its segment and `last` the last
/// curve of the same segment, and the segment ends where it starts, within
/// the shared tolerance.
pub open spec fn closes_spec<S: Scalar>(path: PathModel<S>, first: Curve<S>, last: Curve<S>) -> bool {
    let start = points_before_spec(path.segments, first.segment_id as int);
    let end = start + path.segments[first.segment_id as int].length;
    &&& first.segment_id == last.segment_id
    &&& first.first_point == start
    &&& last.first_point + 4 == end
    &&& approx_eq_spec(path.x[start], path.x[end - 1])
    &&& approx_eq_spec(path.y[start], path.y[end - 1])
}

/// Whether two curves are joined end to end: they follow one another in
/// the same segment, or they are the first and the last curve of a segment
/// that is closed.
///
/// Such curves are not searched for crossings. They meet where they are
/// joined, and the pieces of a curve that was cut leave the joint with the
/// same tangent. Clipping does not settle on such a pair: it halves the
/// ranges again and again around the joint and ends in an error. Were joined
/// curves searched, no path that a pass has cut could be flattened. What is
/// given up is a crossing of two consecutive curves away from their joint;
/// a curve that crosses itself is cut by the path builder.
pub open spec fn joined_spec<S: Scalar>(path: PathModel<S>, a: Curve<S>, b: Curve<S>) -> bool {
    a.segment_id == b.segment_id && (a.first_point + 3 == b.first_point || b.first_point + 3
        == a.first_point || closes_spec(path, a, b) || closes_spec(path, b, a))
}

/// The position of the first point of the segment `segment`.
pub fn segment_start<S: Scalar>(path: &Path<S>, segment: usize) -> (r: usize)
    requires
        path@.wf(),
        segment <= path@.segments.len(),
    ensures
        r == points_before_spec(path@.segments, segment as int),
        r <= path@.x.len(),
{
    let mut start: usize = 0;
    let mut k: usize = 0;
    while k < segment
        invariant
            0 <= k <= segment <= path@.segments.len(),
            path@.wf(),
            start == points_before_spec(path@.segments, k as int),
            start <= path@.x.len(),
        decreases segment - k,
    {
        proof {
            lemma_points_before_monotonic(path@.segments, k + 1, path@.segments.len() as int);
        }
        start = start + path.segments[k].length as usize;
        k = k + 1;
    }
    start
}

/// Whether two curves are joined end to end: they follow one another in
/// the same segment, or they are the first and the last curve of a segment
/// that is closed.
///
/// Such curves are not searched for crossings. They meet where they are
/// joined, and the pieces of a curve that was cut leave the joint with the
/// same tangent. Clipping does not settle on such a pair: it halves the
/// ranges again and again around the joint and ends in an error. Were joined
/// curves searched, no path that a pass has cut could be flattened. What is
/// given up is a crossing of two consecutive curves away from their joint;
/// a curve that crosses itself is cut by the path builder.
pub fn joined<S: Scalar>(path: &Path<S>, a: &Curve<S>, b: &Curve<S>) -> (r: bool)
    requires
        path@.wf(),
        record_valid_spec(path@, *a),
        record_valid_spec(path@, *b),
    ensures
        r == joined_spec(path@, *a, *b),
{
    if a.segment_id != b.segment_id {
        return false;
    }
    if a.first_point as usize + 3 == b.first_point as usize || b.first_point as usize + 3
        == a.first_point as usize {
        return true;
    }
    let id = a.segment_id as usize;
    let start = segment_start(path, id);
    proof {
        lemma_points_before_monotonic(path@.segments, id + 1, path@.segments.len() as int);
        assert(segment_wf_spec(path@.segments[id as int]));
    }
    let end = start + path.segments[id].length as usize;
    let closed = approx_eq(path.x[start], path.x[end - 1]) && approx_eq(path.y[start], path.y[end - 1]);
    closed && ((a.first_point as usize == start && b.first_point as usize + 4 == end) || (
    b.first_point as usize == start && a.first_point as usize + 4 == end))
}

/// The first of the records `k .. end` whose curve crosses the curve of
/// `record`; records that are joined to it are passed over.
pub open spec fn hit_in_leaf_spec<S: Scalar>(
    curves: Seq<Curve<S>>,
    path: PathModel<S>,
    record: Curve<S>,
    node: u32,
    k: int,
    end: int,
) -> Result<Option<HitModel<S>>, IntersectionError<S>>
    decreases end - k,
{
    if k >= end {
        Ok(None)
    } else if joined_spec(path, record, curves[k]) {
        hit_in_leaf_spec(curves, path, record, node, k + 1, end)
    } else {
        match crossing_spec(
            path.curve_at(record.first_point as int),
            path.curve_at(curves[k].first_point as int),
        ) {
            Err(e) => Err(e),
            Ok(Some(crossing)) => Ok(Some(HitModel { node, curve: k, crossing })),
            Ok(None) => hit_in_leaf_spec(curves, path, record, node, k + 1, end),
        }
    }
}

/// The first of the records `k .. end` whose curve crosses the curve of
/// `record`; records that are joined to it are passed over.
pub fn hit_in_leaf<S: Scalar>(
    tree: &CurveBvh<S>,
    path: &Path<S>,
    record: &Curve<S>,
    node: u32,
    first: usize,
    end: usize,
) -> (r: Result<Option<Hit<S>>, IntersectionError<S>>)
    requires
        path@.wf(),
        tree@.shaped(path@),
        record_valid_spec(path@, *record),
        first <= end <= tree@.curves.len(),
    ensures
        same_outcome(r, hit_in_leaf_spec(tree@.curves, path@, *record, node, first as int, end as int)),
        r matches Ok(Some(hit)) ==> first <= hit.curve < end && hit.node == node,
{
    let c = path.curve_at(record.first_point as usize);
    let mut k: usize = first;
    while k < end
        invariant
            first <= k <= end <= tree@.curves.len(),
            path@.wf(),
            tree@.shaped(path@),
            record_valid_spec(path@, *record),
            c == path@.curve_at(record.first_point as int),
            hit_in_leaf_spec(tree@.curves, path@, *record, node, k as int, end as int)
                == hit_in_leaf_spec(tree@.curves, path@, *record, node, first as int, end as int),
        decreases end - k,
    {
        if !joined(path, record, &tree.curves[k]) {
            let other = path.curve_at(tree.curves[k].first_point as usize);
            match crossing(&c, &other) {
                Err(e) => {
                    return Err(e);
                },
                Ok(Some(crossing)) => {
                    return Ok(Some(Hit { node, curve: k, crossing }));
                },
                Ok(None) => {},
            }
        }
        k = k + 1;
    }
    Ok(None)
}

/// The first crossing that the curve of `record` has with a curve of the
/// leaves `j ..` of `candidates`; leaves that this pass has marked are
/// passed over.
pub open spec fn hit_in_candidates_spec<S: Scalar>(
    tree: BvhModel<S>,
    path: PathModel<S>,
    record: Curve<S>,
    candidates: Seq<(u32, Leaf)>,
    j: int,
    generation: u32,
) -> Result<Option<HitModel<S>>, IntersectionError<S>>
    decreases candidates.len() - j,
{
    if j < 0 || j >= candidates.len() {
        Ok(None)
    } else if tree.nodes[candidates[j].0 as int].last_touched == generation {
        hit_in_candidates_spec(tree, path, record, candidates, j + 1, generation)
    } else {
        let leaf = candidates[j].1;
        match hit_in_leaf_spec(
            tree.curves,
            path,
            record,
            candidates[j].0,
            leaf.first_curve as int,
            leaf.first_curve + leaf.num_curves,
        ) {
            Err(e) => Err(e),
            Ok(Some(hit)) => Ok(Some(hit)),
            Ok(None) => hit_in_candidates_spec(tree, path, record, candidates, j + 1, generation),
        }
    }
}

/// Whether every candidate is a leaf of the tree, with its index.
pub open spec fn candidates_valid_spec<S: Scalar>(tree: BvhModel<S>, candidates: Seq<(u32, Leaf)>) -> bool {
    forall|j: int|
        0 <= j < candidates.len() ==> (#[trigger] candidates[j]).0 < tree.nodes.len()
            && tree.nodes[candidates[j].0 as int].data == Data::Leaf(candidates[j].1)
}

/// The first crossing that the curve of `record` has with a curve of the
/// leaves `j ..` of `candidates`; leaves that this pass has marked are
/// passed over.
pub fn hit_in_candidates<S: Scalar>(
    tree: &CurveBvh<S>,
    path: &Path<S>,
    record: &Curve<S>,
    candidates: &Vec<(u32, Leaf)>,
    generation: u32,
) -> (r: Result<Option<Hit<S>>, IntersectionError<S>>)
    requires
        path@.wf(),
        tree@.shaped(path@),
        record_valid_spec(path@, *record),
        candidates_valid_spec(tree@, candidates@),
    ensures
        same_outcome(r, hit_in_candidates_spec(tree@, path@, *record, candidates@, 0, generation)),
        r matches Ok(Some(hit)) ==> hit.curve < tree@.curves.len() && hit.node < tree@.nodes.len(),
{
    let mut j: usize = 0;
    while j < candidates.len()
        invariant
            0 <= j <= candidates.len(),
            path@.wf(),
            tree@.shaped(path@),
            record_valid_spec(path@, *record),
            candidates_valid_spec(tree@, candidates@),
            hit_in_candidates_spec(tree@, path@, *record, candidates@, j as int, generation)
                == hit_in_candidates_spec(tree@, path@, *record, candidates@, 0, generation),
        decreases candidates.len() - j,
    {
        let (node, leaf) = candidates[j];
        assert(candidates@[j as int].0 < tree@.nodes.len());
        if tree.nodes[node as usize].last_touched != generation {
            assert(tree@.nodes[node as int].data == Data::Leaf(leaf));
            let first = leaf.first_curve as usize;
            let end = first + leaf.num_curves as usize;
            match hit_in_leaf(tree, path, record, node, first, end) {
                Err(e) => {
                    return Err(e);
                },
                Ok(Some(hit)) => {
                    return Ok(Some(hit));
                },
                Ok(None) => {},
            }
        }
        j = j + 1;
    }
    Ok(None)
}

/// What a pass has done so far: the replacements it has queued, the nodes
/// with the marks it has left, and whether it has found a crossing.
pub struct PassModel<S: Scalar> {
    pub list: ChangeListModel<S>,
    pub tree: BvhModel<S>,
    pub found: bool,
}

/// The list after the curve of the record `c` has been queued to be
/// replaced by its pieces between the cuts `ts`; with no cuts the list stays
/// as it is.
pub open spec fn replaced_spec<S: Scalar>(
    list: ChangeListModel<S>,
    path: PathModel<S>,
    c: Curve<S>,
    ts: Seq<S>,
) -> Result<ChangeListModel<S>, ChangeError> {
    if ts.len() == 0 {
        Ok(list)
    } else {
        let pieces = path.curve_at(c.first_point as int).splitn_spec(ts);
        list.replace_spec(c.segment_id, c.first_point, pieces.0, pieces.1)
    }
}

/// The pass after the crossing `hit` of the record `a`, which lies in the
/// leaf at `idx`: both curves are queued with their cuts, both leaves are
/// marked, and the pass has found something.
pub open spec fn queue_spec<S: Scalar>(
    pass: PassModel<S>,
    path: PathModel<S>,
    idx: int,
    a: int,
    hit: HitModel<S>,
    generation: u32,
) -> Result<PassModel<S>, ChangeError> {
    match replaced_spec(pass.list, path, pass.tree.curves[a], hit.crossing.a) {
        Err(e) => Err(e),
        Ok(list) => match replaced_spec(list, path, pass.tree.curves[hit.curve], hit.crossing.b) {
            Err(e) => Err(e),
            Ok(list) => Ok(
                PassModel {
                    list,
                    tree: pass.tree.touched(idx, generation).touched(hit.node as int, generation),
                    found: true,
                },
            ),
        },
    }
}

/// Queues the curve of the record `c` to be replaced by its pieces between
/// the cuts `ts`.
pub fn queue_pieces<S: Scalar>(list: &mut ChangeList<S>, path: &Path<S>, c: &Curve<S>, ts: &Vec<S>) -> (r:
    Result<(), ChangeError>)
    requires
        old(list)@.wf(),
        path@.x.len() == path@.y.len(),
        c.first_point + 3 < path@.x.len(),
    ensures
        match replaced_spec(old(list)@, path@, *c, ts@) {
            Ok(queued) => r is Ok && final(list)@ == queued,
            Err(e) => r == Err::<(), ChangeError>(e),
        },
        final(list)@.wf(),
{
    if ts.len() == 0 {
        return Ok(());
    }
    let mut xs: Vec<S> = Vec::new();
    let mut ys: Vec<S> = Vec::new();
    path.curve_at(c.first_point as usize).splitn(ts.as_slice(), &mut xs, &mut ys);
    assert(xs@ =~= path@.curve_at(c.first_point as int).splitn_spec(ts@).0);
    assert(ys@ =~= path@.curve_at(c.first_point as int).splitn_spec(ts@).1);
    list.replace(c.segment_id, c.first_point, xs.as_slice(), ys.as_slice())
}

/// The pass after the records `a ..` of the leaf at `idx` have been held
/// against the candidates: each record is searched for its first crossing,
/// and what is found is queued.
pub open spec fn scan_leaf_from_spec<S: Scalar>(
    pass: PassModel<S>,
    path: PathModel<S>,
    idx: int,
    candidates: Seq<(u32, Leaf)>,
    a: int,
    end: int,
    generation: u32,
) -> Result<PassModel<S>, FlattenError<S>>
    decreases end - a,
{
    if a >= end {
        Ok(pass)
    } else {
        match hit_in_candidates_spec(pass.tree, path, pass.tree.curves[a], candidates, 0, generation) {
            Err(e) => Err(FlattenError::Intersection(e)),
            Ok(None) => scan_leaf_from_spec(pass, path, idx, candidates, a + 1, end, generation),
            Ok(Some(hit)) => match queue_spec(pass, path, idx, a, hit, generation) {
                Err(e) => Err(FlattenError::Change(e)),
                Ok(next) => scan_leaf_from_spec(next, path, idx, candidates, a + 1, end, generation),
            },
        }
    }
}

/// The pass after the nodes `idx .. n` have been visited: every leaf that
/// the pass has not marked is held against its neighbours.
pub open spec fn scan_from_spec<S: Scalar>(
    pass: PassModel<S>,
    path: PathModel<S>,
    idx: int,
    n: int,
    generation: u32,
) -> Result<PassModel<S>, FlattenError<S>>
    decreases n - idx,
{
    if idx >= n {
        Ok(pass)
    } else {
        match pass.tree.nodes[idx].data {
            Data::Leaf(leaf) => {
                if pass.tree.nodes[idx].last_touched == generation {
                    scan_from_spec(pass, path, idx + 1, n, generation)
                } else {
                    match scan_leaf_from_spec(
                        pass,
                        path,
                        idx,
                        pass.tree.neighbours(idx),
                        leaf.first_curve as int,
                        leaf.first_curve + leaf.num_curves,
                        generation,
                    ) {
                        Err(e) => Err(e),
                        Ok(next) => scan_from_spec(next, path, idx + 1, n, generation),
                    }
                }
            },
            _ => scan_from_spec(pass, path, idx + 1, n, generation),
        }
    }
}

/// One pass over the tree of a path: what it queues, what it marks, and
/// whether it has found a crossing.
pub open spec fn scan_spec<S: Scalar>(
    tree: BvhModel<S>,
    path: PathModel<S>,
    list: ChangeListModel<S>,
    generation: u32,
) -> Result<PassModel<S>, FlattenError<S>> {
    scan_from_spec(PassModel { list, tree, found: false }, path, 0, tree.nodes.len() as int, generation)
}

/// Holds the records `first .. end` of the leaf at `idx` against the
/// candidates and queues what is found. Returns whether anything was. Where
/// it fails the pass is given up: the list is emptied, and the tree keeps
/// its curves and the marks that it has got so far.
pub fn scan_leaf<S: Scalar>(
    tree: &mut CurveBvh<S>,
    path: &Path<S>,
    list: &mut ChangeList<S>,
    idx: u32,
    candidates: &Vec<(u32, Leaf)>,
    first: usize,
    end: usize,
    generation: u32,
    found: bool,
) -> (r: Result<bool, FlattenError<S>>)
    requires
        path@.wf(),
        old(tree)@.shaped(path@),
        old(list)@.wf(),
        idx < old(tree)@.nodes.len(),
        first <= end <= old(tree)@.curves.len(),
        candidates_valid_spec(old(tree)@, candidates@),
    ensures
        match scan_leaf_from_spec(
            PassModel { list: old(list)@, tree: old(tree)@, found },
            path@,
            idx as int,
            candidates@,
            first as int,
            end as int,
            generation,
        ) {
            Ok(pass) => r == Ok::<bool, FlattenError<S>>(pass.found) && final(list)@ == pass.list
                && final(tree)@ == pass.tree,
            Err(e) => r == Err::<bool, FlattenError<S>>(e),
        },
        r is Err ==> final(list)@ == ChangeListModel::<S>::empty(),
        final(tree)@.shaped(path@),
        final(list)@.wf(),
        final(tree)@.nodes.len() == old(tree)@.nodes.len(),
        final(tree)@.curves == old(tree)@.curves,
{
    let mut any = found;
    let ghost start = PassModel { list: list@, tree: tree@, found };
    let mut a: usize = first;
    while a < end
        invariant
            first <= a <= end <= tree@.curves.len(),
            path@.wf(),
            tree@.shaped(path@),
            list@.wf(),
            idx < tree@.nodes.len(),
            tree@.nodes.len() == old(tree)@.nodes.len(),
            tree@.curves == old(tree)@.curves,
            candidates_valid_spec(tree@, candidates@),
            start == (PassModel { list: old(list)@, tree: old(tree)@, found }),
            scan_leaf_from_spec(
                PassModel { list: list@, tree: tree@, found: any },
                path@,
                idx as int,
                candidates@,
                a as int,
                end as int,
                generation,
            ) == scan_leaf_from_spec(
                start,
                path@,
                idx as int,
                candidates@,
                first as int,
                end as int,
                generation,
            ),
        decreases end - a,
    {
        let record = tree.curves[a];
        match hit_in_candidates(tree, path, &record, candidates, generation) {
            Err(e) => {
                list.clear();
                return Err(FlattenError::Intersection(e));
            },
            Ok(None) => {},
            Ok(Some(hit)) => {
                let other = tree.curves[hit.curve];
                match queue_pieces(list, path, &record, &hit.crossing.a) {
                    Err(e) => {
                        list.clear();
                        return Err(FlattenError::Change(e));
                    },
                    Ok(()) => {},
                }
                match queue_pieces(list, path, &other, &hit.crossing.b) {
                    Err(e) => {
                        list.clear();
                        return Err(FlattenError::Change(e));
                    },
                    Ok(()) => {},
                }
                tree.touch(idx, generation);
                tree.touch(hit.node, generation);
                any = true;
            },
        }
        a = a + 1;
    }
    Ok(any)
}

/// One pass over the tree: holds every leaf that the pass has not marked
/// against its neighbours, queues the replacements of the curves that
/// cross, and marks their leaves. Returns whether anything was queued;
/// where nothing was, the list and the tree are as they were. Where it
/// fails the pass is given up: the list is emptied, and the tree keeps its
/// curves and the marks that it has got so far.
pub fn scan<S: Scalar>(tree: &mut CurveBvh<S>, path: &Path<S>, list: &mut ChangeList<S>, generation: u32) -> (r:
    Result<bool, FlattenError<S>>)
    requires
        path@.wf(),
        old(tree)@.shaped(path@),
        old(list)@.wf(),
    ensures
        match scan_spec(old(tree)@, path@, old(list)@, generation) {
            Ok(pass) => r == Ok::<bool, FlattenError<S>>(pass.found) && final(list)@ == pass.list
                && final(tree)@ == pass.tree,
            Err(e) => r == Err::<bool, FlattenError<S>>(e),
        },
        r == Ok::<bool, FlattenError<S>>(false) ==> final(list)@ == old(list)@ && final(tree)@ == old(tree)@,
        r is Err ==> final(list)@ == ChangeListModel::<S>::empty(),
        final(list)@.wf(),
        final(tree)@.shaped(path@),
        final(tree)@.nodes.len() == old(tree)@.nodes.len(),
        final(tree)@.curves == old(tree)@.curves,
{
    proof {
        lemma_scan_quiet(
            PassModel { list: list@, tree: tree@, found: false },
            path@,
            0,
            tree@.nodes.len() as int,
            generation,
        );
    }
    let mut found = false;
    let mut candidates: Vec<(u32, Leaf)> = Vec::new();
    let n = tree.nodes.len();
    let ghost start = PassModel { list: list@, tree: tree@, found: false };
    let mut idx: usize = 0;
    while idx < n
        invariant
            0 <= idx <= n,
            n == tree@.nodes.len(),
            n == old(tree)@.nodes.len(),
            path@.wf(),
            tree@.shaped(path@),
            tree@.curves == old(tree)@.curves,
            list@.wf(),
            start == (PassModel { list: old(list)@, tree: old(tree)@, found: false }),
            scan_from_spec(
                PassModel { list: list@, tree: tree@, found },
                path@,
                idx as int,
                n as int,
                generation,
            ) == scan_from_spec(start, path@, 0, n as int, generation),
        decreases n - idx,
    {
        let node = tree.nodes[idx];
        match node.data {
            Data::Leaf(leaf) => {
                if node.last_touched != generation {
                    tree.find_intersecting_with(idx as u32, &mut candidates);
                    proof {
                        lemma_collect_yields_leaves(tree@.nodes, idx as int, tree@.nodes[idx as int].bbox, 0);
                    }
                    let first = leaf.first_curve as usize;
                    let end = first + leaf.num_curves as usize;
                    match scan_leaf(tree, path, list, idx as u32, &candidates, first, end, generation, found) {
                        Err(e) => {
                            return Err(e);
                        },
                        Ok(any) => {
                            found = any;
                        },
                    }
                }
            },
            _ => {},
        }
        idx = idx + 1;
    }
    Ok(found)
}

/// The smallest of `acc` and the scalars `k ..` of `v`, an earlier one
/// winning over an equal later one.
pub open spec fn lowest_from_spec<S: Scalar>(v: Seq<S>, k: int, acc: S) -> S
    decreases v.len() - k,
{
    if k < 0 || k >= v.len() {
        acc
    } else {
        lowest_from_spec(v, k + 1, min_spec(acc, v[k]))
    }
}

/// The largest of `acc` and the scalars `k ..` of `v`, a later one winning
/// over an equal earlier one.
pub open spec fn highest_from_spec<S: Scalar>(v: Seq<S>, k: int, acc: S) -> S
    decreases v.len() - k,
{
    if k < 0 || k >= v.len() {
        acc
    } else {
        highest_from_spec(v, k + 1, max_spec(acc, v[k]))
    }
}

/// The extents of the points of a path that has at least one point.
pub open spec fn extents_spec<S: Scalar>(path: PathModel<S>) -> Rect<S> {
    Rect {
        left: lowest_from_spec(path.x, 1, path.x[0]),
        right: highest_from_spec(path.x, 1, path.x[0]),
        top: lowest_from_spec(path.y, 1, path.y[0]),
        bottom: highest_from_spec(path.y, 1, path.y[0]),
    }
}

/// The coordinates `v` moved by `-offset` and divided by `extent`.
pub open spec fn rescaled_spec<S: Scalar>(v: Seq<S>, offset: S, extent: S) -> Seq<S> {
    Seq::new(v.len(), |i: int| v[i].sub_spec(offset).div_spec(extent))
}

/// The smallest and the largest scalar of a sequence that is not empty.
pub fn extent<S: Scalar>(v: &Vec<S>) -> (r: (S, S))
    requires
        v@.len() > 0,
    ensures
        r == (lowest_from_spec(v@, 1, v@[0]), highest_from_spec(v@, 1, v@[0])),
{
    let mut lowest = v[0];
    let mut highest = v[0];
    let mut k: usize = 1;
    while k < v.len()
        invariant
            1 <= k <= v@.len(),
            lowest_from_spec(v@, k as int, lowest) == lowest_from_spec(v@, 1, v@[0]),
            highest_from_spec(v@, k as int, highest) == highest_from_spec(v@, 1, v@[0]),
        decreases v@.len() - k,
    {
        lowest = min(lowest, v[k]);
        highest = max(highest, v[k]);
        k = k + 1;
    }
    (lowest, highest)
}

/// Moves every coordinate of `v` by `-offset` and divides it by `extent`.
pub fn rescale<S: Scalar>(v: &mut Vec<S>, offset: S, extent: S)
    ensures
        final(v)@ == rescaled_spec(old(v)@, offset, extent),
{
    let mut i: usize = 0;
    while i < v.len()
        invariant
            0 <= i <= v@.len(),
            v@.len() == old(v)@.len(),
            forall|j: int| 0 <= j < i ==> v@[j] == old(v)@[j].sub_spec(offset).div_spec(extent),
            forall|j: int| i <= j < v@.len() ==> v@[j] == old(v)@[j],
        decreases v@.len() - i,
    {
        let moved = v[i].sub(offset).div(extent);
        v.set(i, moved);
        i = i + 1;
    }
    assert(v@ =~= rescaled_spec(old(v)@, offset, extent));
}

/// Rescales the points of `path` so that their extents become the unit
/// square, and returns the extents that they had: every x becomes
/// `(x - left) / width` and every y `(y - top) / height`. A path without
/// points stays as it is and has empty extents.
pub fn normalize<S: Scalar>(path: &mut Path<S>) -> (r: Rect<S>)
    requires
        old(path)@.x.len() == old(path)@.y.len(),
    ensures
        final(path)@.segments == old(path)@.segments,
        old(path)@.x.len() == 0 ==> r == Rect::<S>::empty_spec() && final(path)@ == old(path)@,
        old(path)@.x.len() > 0 ==> {
            &&& r == extents_spec(old(path)@)
            &&& final(path)@.x == rescaled_spec(old(path)@.x, r.left, r.width_spec())
            &&& final(path)@.y == rescaled_spec(old(path)@.y, r.top, r.height_spec())
        },
        old(path)@.wf() ==> final(path)@.wf(),
{
    if path.x.len() == 0 {
        return Rect::empty();
    }
    let (left, right) = extent(&path.x);
    let (top, bottom) = extent(&path.y);
    let rect = Rect::new(left, right, top, bottom);
    rescale(&mut path.x, left, rect.width());
    rescale(&mut path.y, top, rect.height());
    rect
}

/// Whether a list is what a pass queues: it is well formed, and every one
/// of its records brings the seven points or more of a curve that was cut.
pub open spec fn queued_spec<S: Scalar>(list: ChangeListModel<S>) -> bool {
    &&& list.wf()
    &&& forall|i: int|
        0 <= i < list.changes.len() ==> (#[trigger] list.changes[i]).one_past_last_point
            - list.changes[i].first_point >= 7
}

/// Whether a pass is under way as it should be: its list is what a pass
/// queues, and it holds a record where the pass has found a crossing.
pub open spec fn under_way_spec<S: Scalar>(pass: PassModel<S>) -> bool {
    queued_spec(pass.list) && (pass.found ==> pass.list.changes.len() >= 1)
}

/// Queueing the pieces of a cut curve keeps the list what a pass queues,
/// and adds a record where there are cuts.
pub proof fn lemma_replaced_is_queued<S: Scalar>(
    list: ChangeListModel<S>,
    path: PathModel<S>,
    c: Curve<S>,
    ts: Seq<S>,
)
    requires
        queued_spec(list),
    ensures
        replaced_spec(list, path, c, ts) matches Ok(next) ==> queued_spec(next)
            && next.changes.len() == list.changes.len() + (if ts.len() > 0 {
            1int
        } else {
            0int
        }),
{
    if ts.len() > 0 {
        path.curve_at(c.first_point as int).lemma_splitn_shape(ts);
        match replaced_spec(list, path, c, ts) {
            Ok(next) => {
                assert forall|i: int| 0 <= i < next.changes.len() implies (
                #[trigger] next.changes[i]).first_point <= next.changes[i].one_past_last_point
                    <= next.x.len() && next.changes[i].one_past_last_point
                    - next.changes[i].first_point >= 7 by {
                    if i < list.changes.len() {
                        assert(next.changes[i] == list.changes[i]);
                    }
                }
            },
            Err(_) => {},
        }
    }
}

/// A crossing that was found in a leaf cuts at least one of the two curves.
pub proof fn lemma_hit_in_leaf_cuts<S: Scalar>(
    curves: Seq<Curve<S>>,
    path: PathModel<S>,
    record: Curve<S>,
    node: u32,
    k: int,
    end: int,
)
    ensures
        hit_in_leaf_spec(curves, path, record, node, k, end) matches Ok(Some(hit))
            ==> hit.crossing.a.len() > 0 || hit.crossing.b.len() > 0,
    decreases end - k,
{
    if k < end {
        lemma_hit_in_leaf_cuts(curves, path, record, node, k + 1, end);
    }
}

/// A crossing that was found among the candidates cuts at least one of the
/// two curves.
pub proof fn lemma_hit_in_candidates_cuts<S: Scalar>(
    tree: BvhModel<S>,
    path: PathModel<S>,
    record: Curve<S>,
    candidates: Seq<(u32, Leaf)>,
    j: int,
    generation: u32,
)
    ensures
        hit_in_candidates_spec(tree, path, record, candidates, j, generation) matches Ok(Some(hit))
            ==> hit.crossing.a.len() > 0 || hit.crossing.b.len() > 0,
    decreases candidates.len() - j,
{
    if 0 <= j < candidates.len() {
        lemma_hit_in_candidates_cuts(tree, path, record, candidates, j + 1, generation);
        let leaf = candidates[j].1;
        lemma_hit_in_leaf_cuts(
            tree.curves,
            path,
            record,
            candidates[j].0,
            leaf.first_curve as int,
            leaf.first_curve + leaf.num_curves,
        );
    }
}

/// A pass stays under way while the records of a leaf are held against the
/// candidates.
pub proof fn lemma_scan_leaf_under_way<S: Scalar>(
    pass: PassModel<S>,
    path: PathModel<S>,
    idx: int,
    candidates: Seq<(u32, Leaf)>,
    a: int,
    end: int,
    generation: u32,
)
    requires
        under_way_spec(pass),
    ensures
        scan_leaf_from_spec(pass, path, idx, candidates, a, end, generation) matches Ok(next)
            ==> under_way_spec(next),
    decreases end - a,
{
    if a < end {
        lemma_hit_in_candidates_cuts(pass.tree, path, pass.tree.curves[a], candidates, 0, generation);
        match hit_in_candidates_spec(pass.tree, path, pass.tree.curves[a], candidates, 0, generation) {
            Ok(None) => {
                lemma_scan_leaf_under_way(pass, path, idx, candidates, a + 1, end, generation);
            },
            Ok(Some(hit)) => {
                lemma_replaced_is_queued(pass.list, path, pass.tree.curves[a], hit.crossing.a);
                match replaced_spec(pass.list, path, pass.tree.curves[a], hit.crossing.a) {
                    Ok(list) => {
                        lemma_replaced_is_queued(
                            list,
                            path,
                            pass.tree.curves[hit.curve],
                            hit.crossing.b,
                        );
                    },
                    Err(_) => {},
                }
                match queue_spec(pass, path, idx, a, hit, generation) {
                    Ok(next) => {
                        lemma_scan_leaf_under_way(next, path, idx, candidates, a + 1, end, generation);
                    },
                    Err(_) => {},
                }
            },
            Err(_) => {},
        }
    }
}

/// A pass stays under way while the nodes of the tree are visited.
pub proof fn lemma_scan_under_way<S: Scalar>(
    pass: PassModel<S>,
    path: PathModel<S>,
    idx: int,
    n: int,
    generation: u32,
)
    requires
        under_way_spec(pass),
    ensures
        scan_from_spec(pass, path, idx, n, generation) matches Ok(next) ==> under_way_spec(next),
    decreases n - idx,
{
    if idx < n {
        match pass.tree.nodes[idx].data {
            Data::Leaf(leaf) => {
                if pass.tree.nodes[idx].last_touched == generation {
                    lemma_scan_under_way(pass, path, idx + 1, n, generation);
                } else {
                    lemma_scan_leaf_under_way(
                        pass,
                        path,
                        idx,
                        pass.tree.neighbours(idx),
                        leaf.first_curve as int,
                        leaf.first_curve + leaf.num_curves,
                        generation,
                    );
                    match scan_leaf_from_spec(
                        pass,
                        path,
                        idx,
                        pass.tree.neighbours(idx),
                        leaf.first_curve as int,
                        leaf.first_curve + leaf.num_curves,
                        generation,
                    ) {
                        Ok(next) => {
                            lemma_scan_under_way(next, path, idx + 1, n, generation);
                        },
                        Err(_) => {},
                    }
                }
            },
            _ => {
                lemma_scan_under_way(pass, path, idx + 1, n, generation);
            },
        }
    }
}

/// While the records of a leaf are held against the candidates, a pass that
/// has found a crossing stays so, and a pass that ends without one has
/// queued nothing and marked nothing.
pub proof fn lemma_scan_leaf_quiet<S: Scalar>(
    pass: PassModel<S>,
    path: PathModel<S>,
    idx: int,
    candidates: Seq<(u32, Leaf)>,
    a: int,
    end: int,
    generation: u32,
)
    ensures
        scan_leaf_from_spec(pass, path, idx, candidates, a, end, generation) matches Ok(next) ==> (
        pass.found ==> next.found) && (!next.found ==> next == pass),
    decreases end - a,
{
    if a < end {
        match hit_in_candidates_spec(pass.tree, path, pass.tree.curves[a], candidates, 0, generation) {
            Ok(None) => {
                lemma_scan_leaf_quiet(pass, path, idx, candidates, a + 1, end, generation);
            },
            Ok(Some(hit)) => {
                match queue_spec(pass, path, idx, a, hit, generation) {
                    Ok(next) => {
                        lemma_scan_leaf_quiet(next, path, idx, candidates, a + 1, end, generation);
                    },
                    Err(_) => {},
                }
            },
            Err(_) => {},
        }
    }
}

/// While the nodes of the tree are visited, a pass that has found a crossing
/// stays so, and a pass that ends without one has queued nothing and marked
/// nothing.
pub proof fn lemma_scan_quiet<S: Scalar>(
    pass: PassModel<S>,
    path: PathModel<S>,
    idx: int,
    n: int,
    generation: u32,
)
    ensures
        scan_from_spec(pass, path, idx, n, generation) matches Ok(next) ==> (pass.found
            ==> next.found) && (!next.found ==> next == pass),
    decreases n - idx,
{
    if idx < n {
        match pass.tree.nodes[idx].data {
            Data::Leaf(leaf) => {
                if pass.tree.nodes[idx].last_touched == generation {
                    lemma_scan_quiet(pass, path, idx + 1, n, generation);
                } else {
                    lemma_scan_leaf_quiet(
                        pass,
                        path,
                        idx,
                        pass.tree.neighbours(idx),
                        leaf.first_curve as int,
                        leaf.first_curve + leaf.num_curves,
                        generation,
                    );
                    match scan_leaf_from_spec(
                        pass,
                        path,
                        idx,
                        pass.tree.neighbours(idx),
                        leaf.first_curve as int,
                        leaf.first_curve + leaf.num_curves,
                        generation,
                    ) {
                        Ok(next) => {
                            lemma_scan_quiet(next, path, idx + 1, n, generation);
                        },
                        Err(_) => {},
                    }
                }
            },
            _ => {
                lemma_scan_quiet(pass, path, idx + 1, n, generation);
            },
        }
    }
}

/// A pass that replaces curves leaves a well formed path well formed and
/// makes it longer.
pub proof fn lemma_pass_grows<S: Scalar>(path: PathModel<S>)
    requires
        path.wf(),
    ensures
        pass_spec(path) matches Ok(Some(next)) ==> next.wf() && path.x.len() < next.x.len()
            <= MAX_POINTS,
{
    let start = PassModel { list: ChangeListModel::<S>::empty(), tree: build_spec(path), found: false };
    lemma_scan_under_way(start, path, 0, build_spec(path).nodes.len() as int, GENERATION);
    match scan_spec(build_spec(path), path, ChangeListModel::empty(), GENERATION) {
        Ok(pass) => {
            if pass.found {
                let sorted = sorted_spec(pass.list.changes);
                lemma_sorted_keeps_records(pass.list.changes);
                assert forall|i: int| 0 <= i < sorted.len() implies (#[trigger] sorted[i]).first_point
                    <= sorted[i].one_past_last_point <= pass.list.x.len()
                    && sorted[i].one_past_last_point - sorted[i].first_point >= 7 by {
                    assert(pass.list.changes.contains(sorted[i]));
                }
                lemma_apply_grows(pass.list, sorted, 0, path, 0);
                lemma_growth_of_cuts(sorted, 0);
            }
        },
        Err(_) => {},
    }
}

/// What one pass makes of a path: nothing where no curve crosses another,
/// else the path with the replacements of the pass applied.
pub open spec fn pass_spec<S: Scalar>(path: PathModel<S>) -> Result<Option<PathModel<S>>, FlattenError<S>> {
    match scan_spec(build_spec(path), path, ChangeListModel::empty(), GENERATION) {
        Err(e) => Err(e),
        Ok(pass) => {
            if !pass.found {
                Ok(None)
            } else {
                match pass.list.apply_spec(path) {
                    Err(e) => Err(FlattenError::Change(e)),
                    Ok(next) => Ok(Some(next)),
                }
            }
        },
    }
}

/// The flattened path: the path itself where a pass finds nothing, else the
/// flattened path of what the pass makes of it. A pass that replaces curves
/// makes a well formed path longer, so that the passes come to an end; what
/// a pass makes of any other path is taken as it is.
pub open spec fn flatten_spec<S: Scalar>(path: PathModel<S>) -> Result<PathModel<S>, FlattenError<S>>
    decreases MAX_POINTS - path.x.len(),
{
    match pass_spec(path) {
        Err(e) => Err(e),
        Ok(None) => Ok(path),
        Ok(Some(next)) => {
            if path.x.len() < next.x.len() <= MAX_POINTS {
                flatten_spec(next)
            } else {
                Ok(next)
            }
        },
    }
}

/// The path that flattening leaves behind, whether it succeeds or fails:
/// the path of the last pass that could be applied.
pub open spec fn reached_spec<S: Scalar>(path: PathModel<S>) -> PathModel<S>
    decreases MAX_POINTS - path.x.len(),
{
    match pass_spec(path) {
        Ok(Some(next)) => {
            if path.x.len() < next.x.len() <= MAX_POINTS {
                reached_spec(next)
            } else {
                next
            }
        },
        _ => path,
    }
}

/// Flattening is a fixed point: a flattened path flattens to itself, and
/// its first pass finds nothing to replace.
pub proof fn lemma_flatten_fixed_point<S: Scalar>(path: PathModel<S>)
    requires
        path.wf(),
    ensures
        flatten_spec(path) matches Ok(flat) ==> flat.wf() && flatten_spec(flat) == Ok::<
            PathModel<S>,
            FlattenError<S>,
        >(flat) && pass_spec(flat) == Ok::<Option<PathModel<S>>, FlattenError<S>>(None),
    decreases MAX_POINTS - path.x.len(),
{
    lemma_pass_grows(path);
    match pass_spec(path) {
        Ok(Some(next)) => {
            lemma_flatten_fixed_point(next);
        },
        _ => {},
    }
}

/// Rewrites `path` until no curve crosses, within its range, a curve of a
/// neighbouring leaf, and returns the tree of the flattened path. Every
/// curve of a leaf is held against every curve of the neighbouring leaves,
/// but for the curves that are joined to it end to end: such a pair meets at
/// its joint, often with one tangent, and clipping does not settle there
/// ([`joined_spec`] says which curves these are, and what is given up). Where a
/// pass fails the path stays as the passes before it have left it. The
/// change list is emptied at the start and holds nothing on return, whether
/// flattening succeeds or fails.
pub fn flatten<S: Scalar>(path: &mut Path<S>, change_buffer: &mut ChangeList<S>, bvh_builder: Builder<S>) -> (r:
    Result<CurveBvh<S>, FlattenError<S>>)
    requires
        old(path)@.wf(),
    ensures
        match flatten_spec(old(path)@) {
            Ok(flat) => r matches Ok(tree) && final(path)@ == flat && tree@ == build_spec(flat)
                && tree@.wf(flat),
            Err(e) => r == Err::<CurveBvh<S>, FlattenError<S>>(e),
        },
        final(path)@ == reached_spec(old(path)@),
        final(path)@.wf(),
        final(change_buffer)@ == ChangeListModel::<S>::empty(),
    decreases MAX_POINTS - old(path)@.x.len(),
{
    change_buffer.clear();
    let mut tree = bvh_builder.build(path);
    proof {
        lemma_wf_is_shaped(tree@, path@);
    }
    match scan(&mut tree, path, change_buffer, GENERATION) {
        Err(e) => {
            return Err(e);
        },
        Ok(found) => {
            if !found {
                return Ok(tree.into_storage().build(path));
            }
        },
    }
    proof {
        lemma_pass_grows(old(path)@);
    }
    match change_buffer.apply(path) {
        Err(e) => {
            return Err(FlattenError::Change(e));
        },
        Ok(()) => {},
    }
    flatten(path, change_buffer, tree.into_storage())
}

} // verus!
