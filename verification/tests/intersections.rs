use shiny::bezier::Cubic;
use shiny::float4::Float4;
use shiny::intersection;
use shiny::arrayvec::ArrayVec;
use shiny::intersection::{find, find_self, CurvePart, IntersectionError};
use shiny::line::Line;
use shiny::scalar::{approx_eq, approx_eq_within, Scalar};

/// A 32-bit hardware float as the scalar of the geometry.
#[derive(Clone, Copy, PartialEq)]
struct F(f32);

impl std::fmt::Debug for F {
    fn fmt(&self, f: &mut std::fmt::Formatter<'_>) -> std::fmt::Result {
        std::fmt::Debug::fmt(&self.0, f)
    }
}

impl Scalar for F {
    fn from_int(n: i32) -> Self {
        F(n as f32)
    }

    fn max_value() -> Self {
        F(f32::MAX)
    }

    fn epsilon() -> Self {
        F(1e-5)
    }

    fn add(self, rhs: Self) -> Self {
        F(self.0 + rhs.0)
    }

    fn sub(self, rhs: Self) -> Self {
        F(self.0 - rhs.0)
    }

    fn mul(self, rhs: Self) -> Self {
        F(self.0 * rhs.0)
    }

    fn div(self, rhs: Self) -> Self {
        F(self.0 / rhs.0)
    }

    fn neg(self) -> Self {
        F(-self.0)
    }

    fn abs(self) -> Self {
        F(self.0.abs())
    }

    fn sqrt(self) -> Self {
        F(self.0.sqrt())
    }

    fn lt(self, rhs: Self) -> bool {
        self.0 < rhs.0
    }

    fn le(self, rhs: Self) -> bool {
        self.0 <= rhs.0
    }

    fn eq(self, rhs: Self) -> bool {
        self.0 == rhs.0
    }
}

fn cubic(x: [f32; 4], y: [f32; 4]) -> Cubic<F> {
    Cubic { x: [F(x[0]), F(x[1]), F(x[2]), F(x[3])], y: [F(y[0]), F(y[1]), F(y[2]), F(y[3])] }
}

fn curve1() -> Cubic<F> {
    cubic([24.0, 189.0, 159.0, 101.0], [21.0, 40.0, 137.0, 261.0])
}

fn curve2() -> Cubic<F> {
    cubic([18.0, 15.0, 247.0, 251.0], [122.0, 178.0, 173.0, 242.0])
}

fn meet(a: &Cubic<F>, b: &Cubic<F>, expected: usize) {
    let intersections = find(a, b).unwrap();
    assert_eq!(intersections.len(), expected);
    for (ta, tb) in intersections.as_slice() {
        let point1 = a.at(*ta);
        let point2 = b.at(*tb);
        assert!(point1.approx_eq_within(&point2, F(0.001)));
    }
}

#[test]
fn find_intersections() {
    meet(&curve1(), &curve2(), 1);
    meet(
        &cubic([204.0, 45.0, 220.0, 226.0], [41.0, 235.0, 235.0, 146.0]),
        &cubic([100.0, 164.0, 187.0, 119.0], [98.0, 45.0, 98.0, 247.0]),
        2,
    );
    meet(
        &cubic([50.0, 45.0, 220.0, 220.0], [35.0, 235.0, 235.0, 135.0]),
        &cubic([110.0, 17.0, 56.0, 93.0], [209.0, 56.0, 55.0, 158.0]),
        3,
    );
    meet(
        &cubic([236.0, 52.0, 157.0, 264.0], [200.0, 76.0, 233.0, 160.0]),
        &cubic([57.0, 202.0, 236.0, 112.0], [172.0, 255.0, 0.0, 229.0]),
        4,
    );
    meet(
        &cubic([108.0, 143.0, 121.0, 143.0], [219.0, 16.0, 255.0, 136.0]),
        &cubic([62.0, 267.0, 14.0, 156.0], [156.0, 192.0, 125.0, 153.0]),
        9,
    );
}

#[test]
fn one_intersection() {
    let t = find(&curve1(), &curve2()).unwrap();

    assert_eq!(t.len(), 1);

    assert!(approx_eq(t.get(0).0, F(0.76273954)));
    assert!(approx_eq(t.get(0).1, F(0.50988877)));
}

#[test]
fn two_intersections() {
    meet(
        &cubic([204.0, 45.0, 220.0, 226.0], [41.0, 235.0, 235.0, 146.0]),
        &cubic([100.0, 164.0, 187.0, 119.0], [98.0, 45.0, 98.0, 247.0]),
        2,
    );
}

#[test]
fn three_intersections() {
    meet(
        &curve2(),
        &cubic([20.0, 189.0, 85.0, 271.0], [213.0, 40.0, 283.0, 217.0]),
        3,
    );
}

#[test]
fn four_intersections() {
    meet(
        &cubic([236.0, 52.0, 157.0, 264.0], [200.0, 76.0, 233.0, 160.0]),
        &cubic([57.0, 202.0, 236.0, 112.0], [172.0, 255.0, 0.0, 229.0]),
        4,
    );
}

#[test]
fn bezier_intersects_with() {
    let b1 = cubic([50.0, 45.0, 220.0, 220.0], [35.0, 235.0, 235.0, 135.0]);
    let b2 = cubic([113.0, 120.0, 220.0, 140.0], [112.0, 20.0, 95.0, 240.0]);

    let v = b1.find_intersections(&b2).unwrap();
    assert_eq!(v.0.len(), 1);
    assert_eq!(v.1.len(), 1);
}

#[test]
fn bezier_clip() {
    let curve1_limits = intersection::clip(&curve1(), &curve2());
    assert_eq!(curve1_limits, (F(0.18543269), F(0.91614604)));
}

#[test]
fn intersection_clip() {
    let curve1_limits = intersection::clip(&curve1(), &curve2());
    assert_eq!(curve1_limits, (F(0.18543269), F(0.91614604)));
}

#[test]
fn clip_bezier() {
    let curve1_limits = intersection::clip(&curve1(), &curve2());
    assert_eq!(curve1_limits, (F(0.18543269), F(0.91614604)));
}

#[test]
fn fat_line() {
    let curve = curve2();

    let thin = Line::between(curve.p0(), curve.p3());
    let (low, high) = intersection::fat_line(&curve);

    assert!(approx_eq(low.c, F(40.70803)));
    assert!(approx_eq(high.c, F(151.37787)));

    assert!(approx_eq(thin.a, low.a));
    assert!(approx_eq(thin.b, low.b));

    assert!(approx_eq(low.signed_distance_to(curve.p2()), F(0.0)));
    assert!(approx_eq(high.signed_distance_to(curve.p1()), F(0.0)));
}

#[test]
fn clip_line() {
    let line = Line::new(F(0.0), F(0.0), F(1.0));
    let curve = curve1();

    let clip = intersection::clip_line(
        Float4::from_array(&curve.x),
        Float4::from_array(&curve.y),
        &line,
    );
    assert_eq!(clip, (F(0.0), F(1.0)));
}

#[test]
fn reported_intersections_lie_on_both_curves() {
    let pairs = [
        (curve1(), curve2()),
        (curve2(), curve1()),
        (
            cubic([0.0, 2.5, 7.5, 10.0], [5.0, 5.0, 5.0, 5.0]),
            cubic([4.0, 4.0, 4.0, 4.0], [0.0, 2.5, 7.5, 10.0]),
        ),
        (
            cubic([0.0, 2.5, 7.5, 10.0], [0.0, 2.5, 7.5, 10.0]),
            cubic([0.0, 2.5, 7.5, 10.0], [10.0, 7.5, 2.5, 0.0]),
        ),
    ];
    for (a, b) in pairs.iter() {
        let found = find(a, b).unwrap();
        assert_eq!(found.len(), 1);
        let (ta, tb) = *found.get(0);
        assert!(F(0.0).le(ta) && ta.le(F(1.0)));
        assert!(F(0.0).le(tb) && tb.le(F(1.0)));
        assert!(a.at(ta).approx_eq_within(&b.at(tb), F(0.001)));
    }
}

#[test]
fn curves_that_lie_apart_do_not_meet() {
    let a = cubic([0.0, 2.5, 7.5, 10.0], [0.0, 0.0, 0.0, 0.0]);
    let b = cubic([0.0, 2.5, 7.5, 10.0], [5.0, 5.0, 5.0, 5.0]);
    assert_eq!(find(&a, &b).unwrap().len(), 0);
    let far = cubic([100.0, 110.0, 120.0, 130.0], [100.0, 90.0, 110.0, 100.0]);
    assert_eq!(find(&curve1(), &far).unwrap().len(), 0);
}

#[test]
fn find_intersections_gives_the_parameters_of_each_curve() {
    let a = cubic([204.0, 45.0, 220.0, 226.0], [41.0, 235.0, 235.0, 146.0]);
    let b = cubic([100.0, 164.0, 187.0, 119.0], [98.0, 45.0, 98.0, 247.0]);
    let pairs = find(&a, &b).unwrap();
    let (on_a, on_b) = a.find_intersections(&b).unwrap();
    assert_eq!(on_a.len(), 2);
    assert_eq!(on_b.len(), 2);
    for i in 0..2 {
        assert_eq!((*on_a.get(i), *on_b.get(i)), *pairs.get(i));
    }
}

#[test]
fn a_curve_that_is_cut_meets_its_pieces_only_at_the_cut() {
    let c = cubic([0.0, 3.0, 6.0, 10.0], [5.0, 5.5, 4.5, 5.0]);
    let (lower, upper) = c.split(F(0.55));
    let found = find(&lower, &upper).unwrap();
    for (ta, tb) in found.as_slice() {
        assert!(approx_eq(*ta, F(1.0)));
        assert!(approx_eq(*tb, F(0.0)));
    }
}

#[test]
fn a_loop_crosses_itself_once() {
    let looped = cubic([0.0, 20.0, -10.0, 10.0], [0.0, 10.0, 10.0, 0.0]);
    let (t1, t2) = find_self(&looped).unwrap().unwrap();
    assert!(t1.lt(t2));
    assert!(F(0.0).lt(t1) && t2.lt(F(1.0)));
    assert!(looped.at(t1).approx_eq_within(&looped.at(t2), F(0.001)));
    // The curve mirrors itself about x = 5.
    assert!(approx_eq_within(t1.add(t2), F(1.0), F(0.0001)));
    assert!(approx_eq_within(looped.at(t1).x, F(5.0), F(0.001)));
}

#[test]
fn a_curve_without_a_loop_does_not_cross_itself() {
    assert_eq!(find_self(&curve1()), Ok(None));
    assert_eq!(find_self(&curve2()), Ok(None));
    assert_eq!(find_self(&cubic([0.0, 5.0, 5.0, 0.0], [0.0, 0.0, 10.0, 10.0])), Ok(None));
}

#[test]
fn a_curve_cannot_be_intersected_with_itself() {
    let c = curve1();
    match find(&c, &c) {
        Err(IntersectionError::MaxIterations { a, b }) => assert_eq!((a, b), (c, c)),
        Err(IntersectionError::TooManyIntersections { a, b }) => assert_eq!((a, b), (c, c)),
        Ok(found) => panic!("{} intersections of a curve with itself", found.len()),
    }
}

#[test]
fn the_search_gives_up_after_its_steps() {
    let a = CurvePart::new(curve1(), F(0.0), F(1.0));
    let b = CurvePart::new(curve2(), F(0.0), F(1.0));
    let mut found = ArrayVec::new();
    assert_eq!(
        intersection::find_intersections_in_range(a, b, &mut found, intersection::MAX_ITERATIONS, 3),
        Err(IntersectionError::MaxIterations { a: curve1(), b: curve2() })
    );
    assert!(found.is_empty());

    // With halving allowed the pair of the nine intersections is searched
    // through; without, the first clip that removes too little ends it.
    let a = cubic([108.0, 143.0, 121.0, 143.0], [219.0, 16.0, 255.0, 136.0]);
    let b = cubic([62.0, 267.0, 14.0, 156.0], [156.0, 192.0, 125.0, 153.0]);
    let mut found = ArrayVec::new();
    assert_eq!(
        intersection::find_intersections_in_range(
            CurvePart::new(a, F(0.0), F(1.0)),
            CurvePart::new(b, F(0.0), F(1.0)),
            &mut found,
            0,
            0
        ),
        Err(IntersectionError::MaxIterations { a, b })
    );
}

#[test]
fn a_tenth_intersection_is_refused() {
    let mut found = ArrayVec::new();
    for i in 0..9 {
        assert_eq!(
            intersection::record(&mut found, F(0.1 * i as f32), F(0.5), &curve1(), &curve2()),
            Ok(())
        );
    }
    assert_eq!(found.len(), 9);
    // One that repeats the newest is dropped without complaint.
    assert_eq!(intersection::record(&mut found, F(0.8), F(0.1), &curve1(), &curve2()), Ok(()));
    assert_eq!(found.len(), 9);
    assert_eq!(
        intersection::record(&mut found, F(0.95), F(0.5), &curve1(), &curve2()),
        Err(IntersectionError::TooManyIntersections { a: curve1(), b: curve2() })
    );
    assert_eq!(found.len(), 9);
}

#[test]
fn curve_parts() {
    let part = CurvePart::new(curve1(), F(0.25), F(0.75));
    assert_eq!(part.length(), F(0.5));
    assert_eq!(part.map_to_original(F(0.5)), F(0.5));
    assert_eq!(part.map_to_original(F(1.0)), F(0.75));
    let (lower, upper) = part.split(F(0.5));
    assert_eq!((lower.start, lower.end), (F(0.25), F(0.5)));
    assert_eq!((upper.start, upper.end), (F(0.5), F(0.75)));
    assert_eq!(part.get(), curve1().split2(F(0.25), F(0.75)).1);
    assert!(part.is_valid());
    assert!(!CurvePart::new(curve1(), F(0.75), F(0.25)).is_valid());
    assert!(!CurvePart::new(curve1(), F(-0.1), F(0.25)).is_valid());
    assert!(!CurvePart::new(curve1(), F(0.5), F(1.5)).is_valid());
}

#[test]
fn fat_line_bounds_are_set_by_control_points() {
    for curve in [curve1(), curve2()].iter() {
        let thin = Line::between(curve.p0(), curve.p3());
        let offsets = [
            thin.c,
            thin.parallel_through(curve.p1()).c,
            thin.parallel_through(curve.p2()).c,
        ];
        let (low, high) = intersection::fat_line(curve);
        assert!(offsets.contains(&low.c));
        assert!(offsets.contains(&high.c));
        for c in offsets.iter() {
            assert!(low.c.le(*c) && c.le(high.c));
        }
        assert_eq!((low.a, low.b, high.a, high.b), (thin.a, thin.b, thin.a, thin.b));
    }
}

#[test]
fn perpendicular_fat_line_holds_the_control_points() {
    let curve = curve2();
    let thin = Line::between(curve.p0(), curve.p3());
    let (low, high) = intersection::perpendicular_fat_line(&curve);
    // At a right angle to the line through the ends.
    assert!(approx_eq(low.a.mul(thin.a).add(low.b.mul(thin.b)), F(0.0)));
    assert_eq!((low.a, low.b), (high.a, high.b));
    let points = [curve.p0(), curve.p1(), curve.p2(), curve.p3()];
    for p in points.iter() {
        assert!(low.signed_distance_to(*p).le(F(0.001)));
        assert!(F(-0.001).le(high.signed_distance_to(*p)));
    }
    assert!(points.iter().any(|p| approx_eq_within(low.signed_distance_to(*p), F(0.0), F(0.001))));
    assert!(points.iter().any(|p| approx_eq_within(high.signed_distance_to(*p), F(0.0), F(0.001))));
}

#[test]
fn a_curve_below_a_line_is_clipped_away() {
    let line = Line { a: F(0.0), b: F(1.0), c: F(0.0) };
    let x = Float4::new(F(0.0), F(1.0), F(2.0), F(3.0));
    let below = Float4::new(F(-1.0), F(-0.1), F(-0.1), F(-1.0));
    assert_eq!(intersection::clip_line(x, below, &line), (F(1.0), F(0.0)));
    // One control point on the line is enough to keep a range.
    let touching = Float4::new(F(-1.0), F(0.0), F(-0.1), F(-1.0));
    let (low, high) = intersection::clip_line(x, touching, &line);
    assert!(low.le(high));
    let above = Float4::new(F(1.0), F(2.0), F(2.0), F(1.0));
    assert_eq!(intersection::clip_line(x, above, &line), (F(0.0), F(1.0)));
}

#[test]
fn a_curve_outside_of_a_fat_line_is_clipped_away() {
    // Level curves one above the other: each lies below a line of the fat
    // line of the other.
    let lower = cubic([0.0, 3.0, 6.0, 10.0], [5.0, 5.5, 4.5, 5.0]);
    let upper = cubic([0.0, 3.0, 6.0, 10.0], [50.0, 50.5, 49.5, 50.0]);
    let (low, high) = intersection::fat_line(&upper);
    assert_eq!(intersection::clip_between(&lower, low, high), (F(1.0), F(0.0)));
    assert_eq!(intersection::clip(&lower, &upper), (F(1.0), F(0.0)));
    assert_eq!(intersection::clip(&upper, &lower), (F(1.0), F(0.0)));
    assert_eq!(find(&lower, &upper).unwrap().len(), 0);
}
