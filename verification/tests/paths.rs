use shiny::arrayvec::ArrayVec;
use shiny::bezier::Cubic;
use shiny::change_list::{ChangeError, ChangeList};
use shiny::curve_bvh::{
    compute_bounds, evaluate_sah, find_split_axis, partition, CurveBvh, Data, Leaf, Node, Split,
    SplitAxis,
};
use shiny::flatten::{
    crossing, flatten, interior, joined, normalize, scan, splits, FlattenError, GENERATION,
};
use shiny::intersection::{find, IntersectionError};
use shiny::path::{Builder, Error, Path, Segment};
use shiny::point::Point;
use shiny::rect::Rect;
use shiny::scalar::Scalar;
use std::cell::Cell;
use std::rc::Rc;

/// A 32-bit hardware float as the scalar of the geometry.
#[derive(Clone, Copy, PartialEq)]
struct F(f32);

impl std::fmt::Debug for F {
    fn fmt(&self, f: &mut std::fmt::Formatter<'_>) -> std::fmt::Result {
        std::fmt::Debug::fmt(&self.0, f)
    }
}

impl Scalar for F {
    fn from_int(n: i32) -> Self {
        F(n as f32)
    }

    fn max_value() -> Self {
        F(f32::MAX)
    }

    fn epsilon() -> Self {
        F(1e-5)
    }

    fn add(self, rhs: Self) -> Self {
        F(self.0 + rhs.0)
    }

    fn sub(self, rhs: Self) -> Self {
        F(self.0 - rhs.0)
    }

    fn mul(self, rhs: Self) -> Self {
        F(self.0 * rhs.0)
    }

    fn div(self, rhs: Self) -> Self {
        F(self.0 / rhs.0)
    }

    fn neg(self) -> Self {
        F(-self.0)
    }

    fn abs(self) -> Self {
        F(self.0.abs())
    }

    fn sqrt(self) -> Self {
        F(self.0.sqrt())
    }

    fn lt(self, rhs: Self) -> bool {
        self.0 < rhs.0
    }

    fn le(self, rhs: Self) -> bool {
        self.0 <= rhs.0
    }

    fn eq(self, rhs: Self) -> bool {
        self.0 == rhs.0
    }
}

fn fs(v: &[f32]) -> Vec<F> {
    v.iter().map(|x| F(*x)).collect()
}

fn pt(x: f32, y: f32) -> Point<F> {
    Point::new(F(x), F(y))
}

/// A path of one segment for each curve.
fn path_of(curves: &[([f32; 4], [f32; 4])]) -> Path<F> {
    let mut path = Path::new();
    for (x, y) in curves {
        path.segments.push(Segment { length: 4 });
        path.x.extend(fs(x));
        path.y.extend(fs(y));
    }
    assert!(path.is_valid());
    path
}

/// A flat curve from left to right and a flat curve from top to bottom that
/// cross near (5, 5).
fn cross() -> Path<F> {
    path_of(&[
        ([0.0, 3.0, 6.0, 10.0], [5.0, 5.5, 4.5, 5.0]),
        ([5.5, 5.0, 6.0, 5.5], [0.0, 3.0, 7.0, 10.0]),
    ])
}

fn bounds_of(tree: &CurveBvh<F>, path: &Path<F>, leaf: Leaf) -> Rect<F> {
    let curves = tree.curves_in(leaf, path);
    let mut bounds = curves[0].0.coarse_bounds();
    for (curve, _, _) in &curves[1..] {
        bounds = bounds.union(curve.coarse_bounds());
    }
    bounds
}

/// Checks a tree against the path it was built from, and returns the number
/// of its leaves.
fn check_tree(tree: &CurveBvh<F>, path: &Path<F>) -> usize {
    let n = path.num_curves();
    assert_eq!(tree.curves.len(), n);
    assert!(tree.nodes.len() <= 2 * n - 1);
    let mut seen = vec![false; n];
    let mut leaves = 0;
    for (i, node) in tree.nodes.iter().enumerate() {
        match node.data {
            Data::Empty => panic!("an empty node in the tree of a path with curves"),
            Data::Leaf(leaf) => {
                leaves += 1;
                assert!(leaf.num_curves >= 1);
                assert_eq!(node.bbox, bounds_of(tree, path, leaf));
                for k in leaf.first_curve..leaf.first_curve + leaf.num_curves {
                    assert!(!seen[k as usize]);
                    seen[k as usize] = true;
                }
            }
            Data::Branch(branch) => {
                let left = branch.left_then_right as usize;
                assert!(i < left && left + 1 < tree.nodes.len());
                assert_eq!(node.bbox, tree.nodes[left].bbox.union(tree.nodes[left + 1].bbox));
            }
        }
    }
    assert!(seen.iter().all(|s| *s));
    assert_eq!(tree.nodes.len(), 2 * leaves - 1);
    let mut firsts: Vec<u16> = tree.curves.iter().map(|c| c.first_point).collect();
    firsts.sort();
    let mut expected = vec![];
    let mut offset = 0;
    for segment in &path.segments {
        for i in 0..(segment.length - 1) / 3 {
            expected.push(offset + 3 * i);
        }
        offset += segment.length;
    }
    assert_eq!(firsts, expected);
    leaves
}

#[test]
fn replace() {
    let mut path = Path {
        segments: vec![Segment { length: 7 }],
        x: fs(&[1.0, 2.0, 3.0, 4.0, 5.0, 6.0, 7.0]),
        y: fs(&[1.0, 2.0, 3.0, 4.0, 5.0, 6.0, 7.0]),
    };
    assert!(path.is_valid());
    let mut change_list = ChangeList::new();

    change_list
        .replace(0, 3, &fs(&[4.0, 100.0, 100.0, 7.0]), &fs(&[4.0, 100.0, 100.0, 7.0]))
        .unwrap();

    change_list
        .replace(
            0,
            0,
            &fs(&[1.0, -2.0, -3.0, -4.0, -5.0, -6.0, 4.0]),
            &fs(&[1.0, -2.0, -3.0, -4.0, -5.0, -6.0, 4.0]),
        )
        .unwrap();

    change_list.apply(&mut path).unwrap();

    assert_eq!(path.x, fs(&[1.0, -2.0, -3.0, -4.0, -5.0, -6.0, 4.0, 100.0, 100.0, 7.0]));
    assert_eq!(path.x, path.y);
    assert_eq!(path.segments.len(), 1);
    assert_eq!(path.segments[0].length, 10);
    assert!(path.is_valid());
    assert!(change_list.is_empty());
}

#[test]
fn applying_an_empty_list_changes_nothing() {
    let mut path = cross();
    let before = path.clone();
    let mut change_list = ChangeList::new();
    assert_eq!(change_list.apply(&mut path), Ok(()));
    assert_eq!(path, before);
}

#[test]
fn replace_refuses_runs_of_different_lengths() {
    let mut change_list: ChangeList<F> = ChangeList::new();
    assert_eq!(
        change_list.replace(0, 0, &fs(&[1.0, 2.0]), &fs(&[1.0])),
        Err(ChangeError::MismatchedRun)
    );
    assert_eq!(change_list.len(), 0);
}

#[test]
fn replace_refuses_to_outgrow_the_positions() {
    let mut change_list: ChangeList<F> = ChangeList::new();
    let run = vec![F(0.0); 40000];
    assert_eq!(change_list.replace(0, 0, &run, &run), Ok(()));
    assert_eq!(change_list.replace(0, 3, &run, &run), Err(ChangeError::TooManyPoints));
    assert_eq!(change_list.len(), 1);
}

fn seven_points() -> Path<F> {
    Path {
        segments: vec![Segment { length: 4 }, Segment { length: 4 }],
        x: fs(&[1.0, 2.0, 3.0, 4.0, 5.0, 6.0, 7.0, 8.0]),
        y: fs(&[1.0, 2.0, 3.0, 4.0, 5.0, 6.0, 7.0, 8.0]),
    }
}

fn refused(records: &[(u16, u16, &[f32])]) -> ChangeError {
    let mut path = seven_points();
    let before = path.clone();
    let mut change_list = ChangeList::new();
    for (segment, position, run) in records {
        change_list.replace(*segment, *position, &fs(run), &fs(run)).unwrap();
    }
    let error = change_list.apply(&mut path).unwrap_err();
    assert_eq!(path, before);
    assert!(change_list.is_empty());
    error
}

#[test]
fn apply_reports_each_fault() {
    assert_eq!(
        refused(&[(0, 0, &[1.0, 0.0, 0.0, 4.0]), (0, 2, &[3.0, 0.0, 0.0, 6.0])]),
        ChangeError::Overlapping
    );
    assert_eq!(
        refused(&[(1, 0, &[1.0, 0.0, 0.0, 4.0]), (0, 4, &[5.0, 0.0, 0.0, 8.0])]),
        ChangeError::SegmentOrder
    );
    assert_eq!(refused(&[(2, 0, &[1.0, 0.0, 0.0, 4.0])]), ChangeError::OutOfRange);
    assert_eq!(refused(&[(1, 5, &[6.0, 0.0, 0.0, 9.0])]), ChangeError::OutOfRange);
    assert_eq!(refused(&[(0, 0, &[1.0, 0.0, 4.0])]), ChangeError::BadRun);
    assert_eq!(refused(&[(0, 0, &[1.0, 0.0, 0.0, 0.0, 4.0])]), ChangeError::BadRun);
    assert_eq!(refused(&[(0, 0, &[1.0, 0.0, 0.0, 5.0])]), ChangeError::Discontinuous);
    assert_eq!(refused(&[(0, 0, &[0.0, 0.0, 0.0, 4.0])]), ChangeError::Discontinuous);
}

#[test]
fn apply_refuses_to_outgrow_the_positions() {
    let mut path = seven_points();
    let before = path.clone();
    let mut run = vec![F(0.0); 65533];
    run[0] = F(1.0);
    run[65532] = F(4.0);
    let mut change_list = ChangeList::new();
    change_list.replace(0, 0, &run, &run).unwrap();
    assert_eq!(change_list.apply(&mut path), Err(ChangeError::TooManyPoints));
    assert_eq!(path, before);
}

#[test]
fn apply_takes_the_records_by_position() {
    let mut path = seven_points();
    let mut change_list = ChangeList::new();
    change_list
        .replace(1, 4, &fs(&[5.0, 50.0, 51.0, 52.0, 53.0, 54.0, 8.0]), &fs(&[5.0, 0.0, 0.0, 0.0, 0.0, 0.0, 8.0]))
        .unwrap();
    change_list
        .replace(0, 0, &fs(&[1.0, 10.0, 11.0, 12.0, 13.0, 14.0, 4.0]), &fs(&[1.0, 0.0, 0.0, 0.0, 0.0, 0.0, 4.0]))
        .unwrap();
    assert_eq!(change_list.apply(&mut path), Ok(()));
    assert_eq!(
        path.x,
        fs(&[1.0, 10.0, 11.0, 12.0, 13.0, 14.0, 4.0, 5.0, 50.0, 51.0, 52.0, 53.0, 54.0, 8.0])
    );
    assert_eq!(path.segments, vec![Segment { length: 7 }, Segment { length: 7 }]);
    assert!(path.is_valid());
}

#[test]
fn f() {
    println!("{}", std::mem::size_of::<Node<F>>());
}

#[test]
fn tree_of_an_empty_path() {
    let path: Path<F> = Path::new();
    let tree = CurveBvh::storage().build(&path);
    assert_eq!(tree.nodes.len(), 1);
    assert_eq!(tree.nodes[0].data, Data::Empty);
    assert_eq!(tree.nodes[0].bbox, Rect::empty());
    assert!(tree.curves.is_empty());
}

#[test]
fn tree_of_one_curve() {
    let path = path_of(&[([10.0, 3.0, 12.0, 6.0], [5.0, 11.0, 20.0, 15.0])]);
    let tree = CurveBvh::storage().build(&path);
    assert_eq!(tree.nodes.len(), 1);
    assert_eq!(tree.nodes[0].data, Data::Leaf(Leaf { first_curve: 0, num_curves: 1 }));
    assert_eq!(tree.nodes[0].bbox, Rect::new(F(3.0), F(12.0), F(5.0), F(20.0)));
    assert_eq!(tree.curves[0].centroid, pt(7.5, 12.5));
    assert_eq!(check_tree(&tree, &path), 1);
}

#[test]
fn tree_divides_curves_that_lie_apart() {
    let mut curves = vec![];
    for i in 0..6 {
        let o = 100.0 * i as f32;
        curves.push(([o, o + 1.0, o + 2.0, o + 3.0], [o, o + 2.0, o - 1.0, o + 1.0]));
    }
    let path = path_of(&curves);
    let tree = CurveBvh::storage().build(&path);
    assert_eq!(check_tree(&tree, &path), 6);
    assert_eq!(tree.nodes.len(), 11);
}

#[test]
fn tree_covers_a_segment_of_several_curves() {
    let path = Path {
        segments: vec![Segment { length: 7 }, Segment { length: 1 }, Segment { length: 4 }],
        x: fs(&[0.0, 1.0, 2.0, 3.0, 40.0, 41.0, 42.0, 7.0, 90.0, 91.0, 92.0, 93.0]),
        y: fs(&[0.0, 1.0, 0.0, 1.0, 40.0, 42.0, 41.0, 7.0, 5.0, 6.0, 5.0, 6.0]),
    };
    assert!(path.is_valid());
    assert_eq!(path.num_curves(), 3);
    let tree = CurveBvh::storage().build(&path);
    check_tree(&tree, &path);
    let segments: Vec<u16> = {
        let mut ids: Vec<(u16, u16)> =
            tree.curves.iter().map(|c| (c.first_point, c.segment_id)).collect();
        ids.sort();
        ids.iter().map(|c| c.1).collect()
    };
    assert_eq!(segments, vec![0, 0, 2]);
}

#[test]
fn tree_keeps_one_leaf_where_a_division_does_not_pay() {
    let same = ([0.0, 1.0, 2.0, 3.0], [0.0, 1.0, 0.0, 1.0]);
    let path = path_of(&[same, same, same]);
    let tree = CurveBvh::storage().build(&path);
    assert_eq!(tree.nodes.len(), 1);
    assert_eq!(check_tree(&tree, &path), 1);
}

#[test]
fn neighbours_are_the_leaves_whose_bounds_meet() {
    let path = path_of(&[
        ([0.0, 3.0, 6.0, 10.0], [5.0, 5.5, 4.5, 5.0]),
        ([5.5, 5.0, 6.0, 5.5], [0.0, 3.0, 7.0, 10.0]),
        ([100.0, 101.0, 102.0, 103.0], [100.0, 101.0, 100.0, 101.0]),
    ]);
    let tree = CurveBvh::storage().build(&path);
    assert_eq!(check_tree(&tree, &path), 3);
    let mut buffer = vec![(7, Leaf { first_curve: 0, num_curves: 0 })];
    for (i, node) in tree.nodes.iter().enumerate() {
        if let Data::Leaf(leaf) = node.data {
            tree.find_intersecting_with(i as u32, &mut buffer);
            let first = tree.curves[leaf.first_curve as usize].first_point;
            let found: Vec<u16> = buffer
                .iter()
                .map(|(_, other)| tree.curves[other.first_curve as usize].first_point)
                .collect();
            match first {
                0 => assert_eq!(found, vec![4]),
                4 => assert_eq!(found, vec![0]),
                _ => assert_eq!(found, Vec::<u16>::new()),
            }
            for (j, other) in &buffer {
                assert_eq!(tree.nodes[*j as usize].data, Data::Leaf(*other));
            }
        }
    }
}

#[test]
fn touch_marks_one_node() {
    let path = cross();
    let mut tree = CurveBvh::storage().build(&path);
    let before = tree.nodes.clone();
    tree.touch(1, 7);
    assert_eq!(tree.nodes[1].last_touched, 7);
    assert_eq!(tree.nodes[1].bbox, before[1].bbox);
    assert_eq!(tree.nodes[1].data, before[1].data);
    assert_eq!(tree.nodes[0], before[0]);
    assert_eq!(tree.nodes[2], before[2]);
}

#[test]
fn scan_queues_both_curves_of_a_crossing() {
    let path = cross();
    let mut tree = CurveBvh::storage().build(&path);
    assert_eq!(tree.nodes.len(), 3);
    let mut list = ChangeList::new();
    assert_eq!(scan(&mut tree, &path, &mut list, GENERATION), Ok(true));
    assert_eq!(list.len(), 2);
    assert_eq!(tree.nodes[0].last_touched, 0);
    assert_eq!(tree.nodes[1].last_touched, GENERATION);
    assert_eq!(tree.nodes[2].last_touched, GENERATION);
}

#[test]
fn flatten_cuts_crossing_curves_where_they_cross() {
    let mut path = cross();
    let a = Cubic { x: [path.x[0], path.x[1], path.x[2], path.x[3]], y: [path.y[0], path.y[1], path.y[2], path.y[3]] };
    let b = Cubic { x: [path.x[4], path.x[5], path.x[6], path.x[7]], y: [path.y[4], path.y[5], path.y[6], path.y[7]] };
    let met = find(&a, &b).unwrap();
    assert_eq!(met.len(), 1);
    let (ta, tb) = *met.get(0);

    let mut change_list = ChangeList::new();
    let tree = flatten(&mut path, &mut change_list, CurveBvh::storage()).unwrap();

    assert!(path.is_valid());
    assert_eq!(path.segments, vec![Segment { length: 7 }, Segment { length: 7 }]);
    assert_eq!(path.num_curves(), 4);
    check_tree(&tree, &path);
    assert!(change_list.is_empty());

    // The ends stay, and the pieces meet where the curves cross.
    assert_eq!((path.x[0], path.y[0]), (F(0.0), F(5.0)));
    assert_eq!((path.x[6], path.y[6]), (F(10.0), F(5.0)));
    assert_eq!((path.x[7], path.y[7]), (F(5.5), F(0.0)));
    assert_eq!((path.x[13], path.y[13]), (F(5.5), F(10.0)));
    let on_a = Point::new(path.x[3], path.y[3]);
    let on_b = Point::new(path.x[10], path.y[10]);
    assert!(on_a.approx_eq_within(&a.at(ta), F(0.001)));
    assert!(on_b.approx_eq_within(&b.at(tb), F(0.001)));
    assert!(on_a.approx_eq_within(&on_b, F(0.001)));
}

#[test]
fn flatten_twice_changes_nothing_the_second_time() {
    let mut path = cross();
    let mut change_list = ChangeList::new();
    let tree = flatten(&mut path, &mut change_list, CurveBvh::storage()).unwrap();
    let flat = path.clone();

    let again = flatten(&mut path, &mut change_list, tree.into_storage()).unwrap();
    assert_eq!(path, flat);
    assert!(change_list.is_empty());
    check_tree(&again, &path);

    let mut tree = CurveBvh::storage().build(&path);
    assert_eq!(scan(&mut tree, &path, &mut change_list, GENERATION), Ok(false));
    assert!(change_list.is_empty());
}

#[test]
fn flatten_leaves_curves_that_do_not_cross() {
    let mut path = path_of(&[
        ([0.0, 3.0, 6.0, 10.0], [5.0, 5.5, 4.5, 5.0]),
        ([0.0, 3.0, 6.0, 10.0], [50.0, 50.5, 49.5, 50.0]),
    ]);
    let before = path.clone();
    let mut change_list = ChangeList::new();
    let tree = flatten(&mut path, &mut change_list, CurveBvh::storage()).unwrap();
    assert_eq!(path, before);
    assert_eq!(tree.nodes.len(), 3);
}

#[test]
fn flatten_of_an_empty_path() {
    let mut path: Path<F> = Path::new();
    let mut change_list = ChangeList::new();
    let tree = flatten(&mut path, &mut change_list, CurveBvh::storage()).unwrap();
    assert_eq!(tree.nodes.len(), 1);
    assert_eq!(path, Path::new());
}

#[test]
fn flatten_reports_curves_that_cannot_be_intersected() {
    // A curve and the same curve a little lower: clipping one against the
    // other finds more places than two cubic curves can share.
    let x = [24.0, 189.0, 159.0, 101.0];
    let mut path = path_of(&[(x, [21.0, 40.0, 137.0, 261.0]), (x, [21.1, 40.1, 137.1, 261.1])]);
    let before = path.clone();
    let mut change_list = ChangeList::new();
    match flatten(&mut path, &mut change_list, CurveBvh::storage()) {
        Err(FlattenError::Intersection(IntersectionError::TooManyIntersections { a, b })) => {
            assert!(a == before.curve_at(0) || a == before.curve_at(4));
            assert!(b == before.curve_at(0) || b == before.curve_at(4));
            assert!(a != b);
        }
        other => panic!("unexpected outcome {:?}", other.map(|tree| tree.nodes.len())),
    }
    assert_eq!(path, before);
    assert!(change_list.is_empty());
}

#[test]
fn flatten_empties_a_list_that_held_records() {
    let mut path = cross();
    let mut change_list = ChangeList::new();
    change_list.replace(0, 0, &fs(&[9.0, 9.0, 9.0, 9.0]), &fs(&[9.0, 9.0, 9.0, 9.0])).unwrap();
    flatten(&mut path, &mut change_list, CurveBvh::storage()).unwrap();
    assert!(change_list.is_empty());
    assert_eq!(path.segments, vec![Segment { length: 7 }, Segment { length: 7 }]);

    // A second run on the flattened path queues nothing.
    let flat = path.clone();
    change_list.replace(0, 0, &fs(&[9.0, 9.0, 9.0, 9.0]), &fs(&[9.0, 9.0, 9.0, 9.0])).unwrap();
    flatten(&mut path, &mut change_list, CurveBvh::storage()).unwrap();
    assert_eq!(path, flat);
    assert!(change_list.is_empty());
}

#[test]
fn normalize_maps_the_extents_to_the_unit_square() {
    let mut path = Path {
        segments: vec![Segment { length: 4 }],
        x: fs(&[2.0, 4.0, 10.0, 6.0]),
        y: fs(&[-1.0, 3.0, 1.0, 7.0]),
    };
    let extents = normalize(&mut path);
    assert_eq!(extents, Rect::new(F(2.0), F(10.0), F(-1.0), F(7.0)));
    assert_eq!(path.x, fs(&[0.0, 0.25, 1.0, 0.5]));
    assert_eq!(path.y, fs(&[0.0, 0.5, 0.25, 1.0]));
    assert_eq!(path.segments, vec![Segment { length: 4 }]);

    let mut empty: Path<F> = Path::new();
    assert_eq!(normalize(&mut empty), Rect::empty());
    assert_eq!(empty, Path::new());
}

#[test]
fn path_validity() {
    assert!(cross().is_valid());
    let mut path = cross();
    path.segments[0].length = 5;
    assert!(!path.is_valid());
    let mut path = cross();
    path.x.pop();
    assert!(!path.is_valid());
    let mut path = cross();
    path.segments.push(Segment { length: 0 });
    assert!(!path.is_valid());
    let mut path = cross();
    path.segments.pop();
    assert!(!path.is_valid());
    let long = Path { segments: vec![Segment { length: 4 }], x: vec![F(0.0); 70000], y: vec![F(0.0); 70000] };
    assert!(!long.is_valid());
    assert_eq!(cross().num_curves(), 2);
    assert_eq!(
        cross().curve_at(4),
        Cubic { x: [F(5.5), F(5.0), F(6.0), F(5.5)], y: [F(0.0), F(3.0), F(7.0), F(10.0)] }
    );
}

#[test]
fn builder_draws_segments() {
    let mut builder = Builder::new();
    assert_eq!(builder.cursor(), None);
    assert_eq!(builder.line_to(pt(1.0, 1.0)), Err(Error::PathNotStarted));
    assert_eq!(builder.add_cubic(pt(1.0, 1.0), pt(2.0, 2.0), pt(3.0, 3.0)), Err(Error::PathNotStarted));
    assert_eq!(builder.close(), Err(Error::PathNotStarted));

    assert_eq!(builder.move_to(pt(0.0, 0.0)), Ok(()));
    assert_eq!(builder.line_to(pt(8.0, 4.0)), Ok(()));
    assert_eq!(builder.cursor(), Some(pt(8.0, 4.0)));
    assert_eq!(builder.add_cubic(pt(9.0, 5.0), pt(9.0, 7.0), pt(8.0, 8.0)), Ok(()));
    assert_eq!(builder.close(), Ok(()));
    assert_eq!(builder.close(), Err(Error::PathNotStarted));
    assert_eq!(builder.move_to(pt(20.0, 20.0)), Ok(()));
    assert_eq!(builder.line_to(pt(24.0, 20.0)), Ok(()));

    let path = builder.build();
    assert!(path.is_valid());
    assert_eq!(path.segments, vec![Segment { length: 10 }, Segment { length: 4 }]);
    assert_eq!(
        path.x,
        fs(&[0.0, 2.0, 6.0, 8.0, 9.0, 9.0, 8.0, 6.0, 2.0, 0.0, 20.0, 21.0, 23.0, 24.0])
    );
    assert_eq!(
        path.y,
        fs(&[0.0, 1.0, 3.0, 4.0, 5.0, 7.0, 8.0, 6.0, 2.0, 0.0, 20.0, 20.0, 20.0, 20.0])
    );
}

#[test]
fn builder_does_not_close_a_closed_segment_again() {
    let mut builder = Builder::new();
    builder.move_to(pt(0.0, 0.0)).unwrap();
    builder.line_to(pt(4.0, 0.0)).unwrap();
    builder.line_to(pt(0.0, 0.0)).unwrap();
    builder.close().unwrap();
    let path = builder.build();
    assert_eq!(path.segments, vec![Segment { length: 7 }]);
}

#[test]
fn builder_refuses_to_outgrow_the_positions() {
    let mut builder = Builder::new();
    builder.move_to(pt(0.0, 0.0)).unwrap();
    for _ in 0..21844 {
        builder.line_to(pt(1.0, 0.0)).unwrap();
    }
    assert_eq!(builder.line_to(pt(2.0, 0.0)), Err(Error::TooManyCurves));
    assert_eq!(builder.move_to(pt(2.0, 0.0)), Ok(()));
    assert_eq!(builder.move_to(pt(2.0, 0.0)), Ok(()));
    assert_eq!(builder.move_to(pt(2.0, 0.0)), Err(Error::TooManyCurves));
    let path = builder.build();
    assert!(path.is_valid());
    assert_eq!(path.x.len(), 65535);
}

#[test]
fn array_vec_init() {
    let vec = ArrayVec::<u32, 3>::new();

    assert_eq!(vec.len(), 0);
    assert_eq!(vec.capacity(), 3);

    assert_eq!(vec.as_slice().len(), 0);
    assert!(vec.is_empty());
    assert!(!vec.is_full());
}

/// A value that counts how many of its kind were dropped.
#[derive(Debug)]
struct T(u32, Rc<Cell<u32>>);

impl Drop for T {
    fn drop(&mut self) {
        self.1.set(self.1.get() + 1);
    }
}

impl PartialEq<u32> for T {
    fn eq(&self, other: &u32) -> bool {
        self.0 == *other
    }
}

#[test]
fn array_vec_push_drop() {
    let k = Rc::new(Cell::new(0));
    let mut vec = ArrayVec::<T, 4>::new();

    vec.push(T(0, k.clone()));
    assert_eq!(vec.len(), 1);
    assert_eq!(vec.capacity(), 4);
    assert_eq!(vec.as_slice(), [0]);

    vec.set(0, T(1, k.clone()));
    assert_eq!(vec.len(), 1);
    assert_eq!(vec.capacity(), 4);
    assert_eq!(vec.as_slice(), [1]);

    vec.push(T(2, k.clone()));
    assert_eq!(vec.len(), 2);
    assert_eq!(vec.capacity(), 4);
    assert_eq!(vec.as_slice(), [1, 2]);

    std::mem::drop(vec);

    assert_eq!(k.get(), 3);
}

#[test]
fn array_vec_from_iter() {
    {
        // Saturating 0-sized array
        let vec = ArrayVec::<u32, 0>::from_iter(std::iter::repeat(100));

        assert_eq!(vec.len(), 0);
        assert_eq!(vec.len(), vec.capacity());
        assert_eq!(vec.as_slice(), []);
    }
    {
        // Saturating N-sized array
        let vec = ArrayVec::<u32, 4>::from_iter(std::iter::repeat(100));

        assert_eq!(vec.len(), 4);
        assert_eq!(vec.len(), vec.capacity());
        assert_eq!(vec.as_slice(), [100, 100, 100, 100]);
    }
    {
        // Underfilling N-sized array
        let vec = ArrayVec::<u32, 4>::from_iter(std::iter::once(100));

        assert_eq!(vec.len(), 1);
        assert_eq!(vec.as_slice(), [100]);
    }
}

#[test]
fn array_vec_keeps_to_its_capacity() {
    let mut vec = ArrayVec::<u32, 2>::new();
    assert_eq!(vec.last(), None);
    assert_eq!(vec.pop(), None);
    assert_eq!(vec.try_push(1), Ok(()));
    assert_eq!(vec.try_push(2), Ok(()));
    assert!(vec.is_full());
    assert_eq!(vec.try_push(3), Err(3));
    assert_eq!(vec.as_slice(), [1, 2]);
    assert_eq!(vec.get(1), &2);
    assert_eq!(vec.last(), Some(&2));
    assert_eq!(vec.iter().copied().collect::<Vec<u32>>(), vec![1, 2]);
    assert_eq!(vec.pop(), Some(2));
    assert_eq!(vec.as_slice(), [1]);
    vec.clear();
    assert!(vec.is_empty());
    let taken = ArrayVec::<u32, 3>::from_iter(vec![5, 6, 7, 8, 9].into_iter());
    assert_eq!(taken.as_slice(), [5, 6, 7]);
}

/// Three curves with the bounds 3 x 1 at x = 0, 3 x 1 at x = 10 and 3 x 4 at
/// x = 30, one segment each.
fn three_apart() -> Path<F> {
    path_of(&[
        ([0.0, 1.0, 2.0, 3.0], [0.0, 1.0, 0.0, 1.0]),
        ([10.0, 11.0, 12.0, 13.0], [0.0, 1.0, 0.0, 1.0]),
        ([30.0, 31.0, 32.0, 33.0], [0.0, 4.0, 0.0, 4.0]),
    ])
}

fn records_of(path: &Path<F>) -> CurveBvh<F> {
    // A tree that was not divided: the records stand in path order.
    let mut tree = CurveBvh::storage().build(path);
    tree.curves.sort_by_key(|c| c.first_point);
    tree
}

#[test]
fn bounds_of_ranges_of_records() {
    let path = three_apart();
    let tree = records_of(&path);
    assert_eq!(compute_bounds(&tree.curves, &path, 0, 3), Rect::new(F(0.0), F(33.0), F(0.0), F(4.0)));
    assert_eq!(compute_bounds(&tree.curves, &path, 0, 2), Rect::new(F(0.0), F(13.0), F(0.0), F(1.0)));
    assert_eq!(compute_bounds(&tree.curves, &path, 2, 3), Rect::new(F(30.0), F(33.0), F(0.0), F(4.0)));
    assert_eq!(compute_bounds(&tree.curves, &path, 1, 1), Rect::empty());
    let centroids: Vec<Point<F>> = tree.curves.iter().map(|c| c.centroid).collect();
    assert_eq!(centroids, vec![pt(1.5, 0.5), pt(11.5, 0.5), pt(31.5, 2.0)]);
}

#[test]
fn cost_of_a_division() {
    let path = three_apart();
    let tree = records_of(&path);
    // Left of 11.5 lies the first curve alone: 1 * (3 * 1) + 2 * (23 * 4).
    assert_eq!(evaluate_sah(&tree.curves, &path, 0, 3, SplitAxis::X, F(11.5)), F(187.0));
    // Left of 31.5 lie the first two: 2 * (13 * 1) + 1 * (3 * 4).
    assert_eq!(evaluate_sah(&tree.curves, &path, 0, 3, SplitAxis::X, F(31.5)), F(38.0));
    // Nothing lies left of 1.5: 3 * (33 * 4).
    assert_eq!(evaluate_sah(&tree.curves, &path, 0, 3, SplitAxis::X, F(1.5)), F(396.0));
    // Below 2 lie the first two.
    assert_eq!(evaluate_sah(&tree.curves, &path, 0, 3, SplitAxis::Y, F(2.0)), F(38.0));
    assert_eq!(evaluate_sah(&tree.curves, &path, 1, 3, SplitAxis::X, F(31.5)), F(15.0));
    assert_eq!(
        find_split_axis(&tree.curves, &path, 0, 3),
        Split { axis: SplitAxis::X, position: F(31.5), cost: F(38.0) }
    );
}

#[test]
fn records_are_partitioned_in_place() {
    let path = three_apart();
    let mut tree = records_of(&path);
    let middle = partition(&mut tree.curves, SplitAxis::X, F(11.5), 0, 3);
    assert_eq!(middle, 1);
    let firsts: Vec<u16> = tree.curves.iter().map(|c| c.first_point).collect();
    assert_eq!(firsts, vec![0, 8, 4]);
    assert_eq!(partition(&mut tree.curves, SplitAxis::X, F(100.0), 0, 3), 3);
    assert_eq!(partition(&mut tree.curves, SplitAxis::X, F(-1.0), 0, 3), 0);
    // Only the range that was asked for is touched.
    let before: Vec<u16> = tree.curves.iter().map(|c| c.first_point).collect();
    let middle = partition(&mut tree.curves, SplitAxis::X, F(20.0), 1, 3);
    let after: Vec<u16> = tree.curves.iter().map(|c| c.first_point).collect();
    assert_eq!(after[0], before[0]);
    assert!(tree.curves[1..middle].iter().all(|c| c.centroid.x.0 < 20.0));
    assert!(tree.curves[middle..].iter().all(|c| c.centroid.x.0 >= 20.0));
}

#[test]
fn cuts_are_the_inner_parameters_in_rising_order() {
    let mut pairs = shiny::arrayvec::ArrayVec::<(F, F), 9>::new();
    for (a, b) in [(0.7, 0.2), (1.0, 0.5), (0.3, 0.000001), (0.5, 0.9), (0.0, 0.4)] {
        pairs.push((F(a), F(b)));
    }
    assert_eq!(splits(&pairs, true), fs(&[0.3, 0.5, 0.7]));
    assert_eq!(splits(&pairs, false), fs(&[0.2, 0.4, 0.5, 0.9]));
    assert!(interior(F(0.5)));
    assert!(!interior(F(0.0)));
    assert!(!interior(F(1.0)));
    assert!(!interior(F(0.999995)));
    assert!(interior(F(0.9999)));
}

#[test]
fn curves_that_only_touch_at_their_ends_do_not_cross() {
    let a = Cubic { x: [F(0.0), F(2.5), F(7.5), F(10.0)], y: [F(0.0), F(0.0), F(0.0), F(0.0)] };
    let b = Cubic { x: [F(10.0), F(10.0), F(10.0), F(10.0)], y: [F(0.0), F(2.5), F(7.5), F(10.0)] };
    assert!(crossing(&a, &b).unwrap().is_none());
    let h = Cubic { x: [F(0.0), F(2.5), F(7.5), F(10.0)], y: [F(5.0), F(5.0), F(5.0), F(5.0)] };
    let v = Cubic { x: [F(4.0), F(4.0), F(4.0), F(4.0)], y: [F(0.0), F(2.5), F(7.5), F(10.0)] };
    let cuts = crossing(&h, &v).unwrap().unwrap();
    assert_eq!(cuts.a.len(), 1);
    assert_eq!(cuts.b.len(), 1);
    assert!(interior(cuts.a[0]) && interior(cuts.b[0]));
}

#[test]
fn curves_that_follow_one_another_are_joined() {
    let mut builder = Builder::new();
    builder.move_to(pt(0.0, 0.0)).unwrap();
    builder.line_to(pt(10.0, 0.0)).unwrap();
    builder.line_to(pt(10.0, 10.0)).unwrap();
    builder.line_to(pt(0.0, 10.0)).unwrap();
    builder.close().unwrap();
    builder.move_to(pt(20.0, 0.0)).unwrap();
    builder.line_to(pt(30.0, 0.0)).unwrap();
    builder.line_to(pt(30.0, 10.0)).unwrap();
    builder.line_to(pt(20.0, 10.0)).unwrap();
    let path = builder.build();
    assert_eq!(path.segments, vec![Segment { length: 13 }, Segment { length: 10 }]);
    let tree = records_of(&path);
    let at = |first: u16| *tree.curves.iter().find(|c| c.first_point == first).unwrap();
    // Neighbours in the closed segment, the closing pair among them.
    assert!(joined(&path, &at(0), &at(3)));
    assert!(joined(&path, &at(3), &at(0)));
    assert!(joined(&path, &at(6), &at(9)));
    assert!(joined(&path, &at(0), &at(9)));
    assert!(joined(&path, &at(9), &at(0)));
    assert!(!joined(&path, &at(0), &at(6)));
    assert!(!joined(&path, &at(3), &at(9)));
    // The open segment: its first and last curve are not joined.
    assert!(joined(&path, &at(13), &at(16)));
    assert!(joined(&path, &at(16), &at(19)));
    assert!(!joined(&path, &at(13), &at(19)));
    // Curves of different segments never are.
    assert!(!joined(&path, &at(9), &at(13)));
    assert!(!joined(&path, &at(0), &at(13)));
}

#[test]
fn a_pass_fails_where_its_replacements_cannot_be_queued() {
    let path = cross();
    let mut tree = CurveBvh::storage().build(&path);
    let mut list = ChangeList::new();
    let filler = vec![F(0.0); 65530];
    list.replace(0, 0, &filler, &filler).unwrap();
    assert_eq!(
        scan(&mut tree, &path, &mut list, GENERATION),
        Err(FlattenError::Change(ChangeError::TooManyPoints))
    );
    // The pass is given up: nothing stays queued, and the tree keeps its
    // curves.
    assert!(list.is_empty());
    assert_eq!(tree.curves, CurveBvh::storage().build(&path).curves);
    assert_eq!(tree.nodes.len(), CurveBvh::storage().build(&path).nodes.len());
}
