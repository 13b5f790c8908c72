use shiny::bezier::Cubic;
use shiny::fixed::Fixed;
use shiny::fixed_geometry::MODERATE;
use shiny::intersection::fat_line;
use shiny::line::Line;
use shiny::point::Point;
use shiny::scalar::{one, ratio, zero, Scalar};

fn raw_point(x: i64, y: i64) -> Point<Fixed> {
    Point::new(Fixed::from_raw(x), Fixed::from_raw(y))
}

fn whole_point(x: i32, y: i32) -> Point<Fixed> {
    Point::new(Fixed::from_int(x), Fixed::from_int(y))
}

/// A curve whose coordinates are no multiples of eight raw units, so that
/// every product at one half rounds.
fn ragged_curve() -> Cubic<Fixed> {
    Cubic::new(
        raw_point(655361, -655361),
        raw_point(1310723, -1310723),
        raw_point(1966085, -1966085),
        raw_point(2621447, -2621447),
    )
}

fn blend(v: [i64; 4]) -> i64 {
    v[0] + 3 * v[1] + 3 * v[2] + v[3]
}

#[test]
fn a_fixed_curve_at_one_half_is_the_blend_of_its_points() {
    let c = ragged_curve();
    let p = c.at(ratio(1, 2));
    assert_eq!(p, raw_point(1638402, -1638402));
    let xs = [655361, 1310723, 1966085, 2621447];
    assert_eq!(blend(xs), 8 * 1638404);
    assert!((8 * p.x.raw() - blend(xs)).abs() < 32);
    assert!((8 * p.y.raw() + blend(xs)).abs() < 32);
}

#[test]
fn a_fixed_curve_of_the_largest_moderate_points_does_not_saturate_at_one_half() {
    let far = Fixed::from_raw(MODERATE);
    let c = Cubic::new(
        Point::new(far, far.neg()),
        Point::new(far, far.neg()),
        Point::new(far, far.neg()),
        Point::new(far, far.neg()),
    );
    let p = c.at(ratio(1, 2));
    assert_eq!(p, Point::new(far, far.neg()));
    let (left, right) = c.split(ratio(1, 2));
    assert_eq!(left.p3(), Point::new(far, far.neg()));
    assert_eq!(right.p0(), Point::new(far, far.neg()));
}

#[test]
fn halving_a_fixed_curve_meets_the_curve_at_one_half() {
    let c = ragged_curve();
    let (left, right) = c.split(ratio(1, 2));
    assert_eq!(left.p3(), raw_point(1638401, -1638401));
    assert_eq!(left.p3(), right.p0());
    let on_curve = c.at(ratio(1, 2));
    assert!((left.p3().x.raw() - on_curve.x.raw()).abs() <= 6);
    assert!((left.p3().y.raw() - on_curve.y.raw()).abs() <= 6);
}

#[test]
fn a_split_of_a_fixed_curve_keeps_its_ends() {
    let c = ragged_curve();
    let t = Fixed::from_raw(19661);
    let (left, right) = c.split(t);
    let start: Fixed = zero::<Fixed>().mul(t);
    let end: Fixed = t.add(one::<Fixed>().mul(one::<Fixed>().sub(t)));
    assert_eq!(start, zero());
    assert_eq!(end, one());
    assert_eq!(left.at(zero()), c.at(start));
    assert_eq!(right.at(one()), c.at(end));
    assert_eq!(left.at(zero()), raw_point(655361, -655361));
    assert_eq!(right.at(one()), raw_point(2621447, -2621447));
}

#[test]
fn a_fixed_fat_line_touches_the_inner_control_points() {
    let c = Cubic::new(
        whole_point(0, 0),
        whole_point(10, 30),
        whole_point(20, -15),
        whole_point(30, 10),
    );
    let (low, high) = fat_line(&c);
    let thin = Line::between(c.p0(), c.p3());
    assert_eq!((low.a, low.b), (thin.a, thin.b));
    assert_eq!((high.a, high.b), (thin.a, thin.b));
    assert!(low.c.raw() < thin.c.raw() && thin.c.raw() < high.c.raw());
    for p in [c.p1(), c.p2()] {
        assert!(low.signed_distance_to(p).raw() <= 0);
        assert!(high.signed_distance_to(p).raw() >= 0);
        assert_eq!(thin.parallel_through(p).signed_distance_to(p), zero());
    }
    let touched_low =
        low.signed_distance_to(c.p1()).raw() == 0 || low.signed_distance_to(c.p2()).raw() == 0;
    let touched_high =
        high.signed_distance_to(c.p1()).raw() == 0 || high.signed_distance_to(c.p2()).raw() == 0;
    assert!(touched_low && touched_high);
}

#[test]
fn a_fixed_line_through_points_above_each_other_is_upright() {
    let p1 = raw_point(327681, 0);
    let p2 = raw_point(327682, 589824);
    let line = Line::between(p1, p2);
    assert_eq!(line.a, one());
    assert_eq!(line.b, zero());
    assert_eq!(line.c, Fixed::from_raw(-327681));
    assert_eq!(line.signed_distance_to(p1), zero());
    assert_eq!(line.signed_distance_to(p2), Fixed::from_raw(1));
}

const UNIT: i128 = 65536;

/// The exact curve with the raw coordinates `v` at `t / 65536`, times the
/// cube of 65536.
fn bernstein(v: [i64; 4], t: i64) -> i128 {
    let t = t as i128;
    let s = UNIT - t;
    s * s * s * v[0] as i128
        + 3 * s * s * t * v[1] as i128
        + 3 * s * t * t * v[2] as i128
        + t * t * t * v[3] as i128
}

fn raws(v: [Fixed; 4]) -> [i64; 4] {
    [v[0].raw(), v[1].raw(), v[2].raw(), v[3].raw()]
}

#[test]
fn a_fixed_curve_is_near_the_exact_curve_at_every_step() {
    let c = ragged_curve();
    let reach: i128 = 2621447;
    let bound = UNIT * UNIT * 14 * reach + 4 * UNIT * UNIT * UNIT;
    let mut t: i64 = 0;
    while t <= 65536 {
        let p = c.at(Fixed::from_raw(t));
        let off_x = UNIT * UNIT * UNIT * p.x.raw() as i128 - bernstein(raws(c.x), t);
        let off_y = UNIT * UNIT * UNIT * p.y.raw() as i128 - bernstein(raws(c.y), t);
        assert!(off_x.abs() <= bound && off_y.abs() <= bound);
        if t == 0 || t == 65536 {
            assert_eq!((off_x, off_y), (0, 0));
        }
        t += 257;
    }
    // One value in full. The powers of 19661 are 5898 and 1769, the weights
    // 22478, 28902, 12387 and 1769, and the four products 224780, 578041,
    // 371610 and 70760. The exact curve lies at about 1245192.8.
    assert_eq!(c.at(Fixed::from_raw(19661)).x.raw(), 1245191);
}

#[test]
fn a_split_of_a_fixed_curve_is_near_the_exact_subdivision() {
    let c = ragged_curve();
    let mut t: i64 = 0;
    while t <= 65536 {
        let (left, right) = c.split(Fixed::from_raw(t));
        for (v, l, r) in [(raws(c.x), raws(left.x), raws(right.x)), (raws(c.y), raws(left.y), raws(right.y))] {
            let s = UNIT - t as i128;
            let t = t as i128;
            let first = |a: i64, b: i64| s * a as i128 + t * b as i128;
            let second = |a: i64, b: i64, c: i64| s * first(a, b) + t * first(b, c);
            assert_eq!(l[0], v[0]);
            assert!((UNIT * l[1] as i128 - first(v[0], v[1])).abs() <= 2 * UNIT);
            assert!((UNIT * UNIT * l[2] as i128 - second(v[0], v[1], v[2])).abs() <= 4 * UNIT * UNIT);
            assert!(
                (UNIT * UNIT * UNIT * l[3] as i128 - bernstein(v, t as i64)).abs()
                    <= 6 * UNIT * UNIT * UNIT
            );
            assert_eq!(r[0], l[3]);
            assert!((UNIT * UNIT * r[1] as i128 - second(v[1], v[2], v[3])).abs() <= 4 * UNIT * UNIT);
            assert!((UNIT * r[2] as i128 - first(v[2], v[3])).abs() <= 2 * UNIT);
            assert_eq!(r[3], v[3]);
        }
        let on_curve = c.at(Fixed::from_raw(t));
        assert!((left.p3().x.raw() - on_curve.x.raw()).abs() <= 14 * 40 + 10);
        assert!((left.p3().y.raw() - on_curve.y.raw()).abs() <= 14 * 40 + 10);
        t += 257;
    }
}

/// A curve with a loop, its coordinates up to ten million raw units.
fn wide_curve() -> Cubic<Fixed> {
    Cubic::new(
        raw_point(-9_999_999, 3_141_593),
        raw_point(8_765_431, -7_071_067),
        raw_point(-2_718_281, 9_876_543),
        raw_point(6_931_471, -1_414_213),
    )
}

#[test]
fn the_parts_of_a_fixed_split_trace_the_curve() {
    for (c, reach) in [(ragged_curve(), 2_621_447_i64), (wide_curve(), 9_999_999)] {
        let bound = 34 * reach + 14 * 65536;
        let mut worst = 0;
        let mut t: i64 = 0;
        while t <= 65536 {
            let cut = Fixed::from_raw(t);
            let (left, right) = c.split(cut);
            let mut s: i64 = 0;
            while s <= 65536 {
                let at = Fixed::from_raw(s);
                let along = left.at(at);
                let across = c.at(at.mul(cut));
                assert!(65536 * (along.x.raw() - across.x.raw()).abs() <= bound);
                assert!(65536 * (along.y.raw() - across.y.raw()).abs() <= bound);
                worst = worst.max((along.x.raw() - across.x.raw()).abs());
                let along = right.at(at);
                let across = c.at(cut.add(at.mul(one::<Fixed>().sub(cut))));
                assert!(65536 * (along.x.raw() - across.x.raw()).abs() <= bound);
                assert!(65536 * (along.y.raw() - across.y.raw()).abs() <= bound);
                worst = worst.max((along.x.raw() - across.x.raw()).abs());
                s += 1024;
            }
            t += 1024;
        }
        // The rounding is real: somewhere the two differ.
        assert!(worst > 0);
    }
}

#[test]
fn a_fixed_line_passes_through_the_points_that_it_was_made_from() {
    // The line through (1, 2) and (4, 6). Its slope is 87381 raw units, the
    // offset 43691, and the length that both are divided by 109226.
    let p = whole_point(1, 2);
    let q = whole_point(4, 6);
    let line = Line::between(p, q);
    assert_eq!((line.a.raw(), line.b.raw(), line.c.raw()), (52428, -39321, 26214));
    assert_eq!(line.signed_distance_to(p), zero());
    assert_eq!(line.signed_distance_to(q), zero());

    // Points off the grid: the distances are small, and not all zero.
    let mut worst = 0;
    let mut k: i64 = 1;
    while k < 4000 {
        let p = raw_point(37 * k - 70_001, 91 * k + 13);
        let q = raw_point(53 * k + 999, 300_007 - 77 * k);
        let line = Line::between(p, q);
        let near = line.signed_distance_to(p).raw();
        let far = line.signed_distance_to(q).raw();
        assert!(65536 * near.abs() <= p.x.raw().abs() + p.y.raw().abs() + 4 * 65536);
        assert!(
            65536 * far.abs()
                <= q.x.raw().abs() + q.y.raw().abs() + (q.x.raw() - p.x.raw()).abs() + 4 * 65536
        );
        worst = worst.max(near.abs()).max(far.abs());
        k += 7;
    }
    assert!(worst > 0);
}

#[test]
fn the_midpoint_of_a_fixed_curve_holds_at_the_ends_of_the_range() {
    let corners = [i64::MAX, i64::MIN, i64::MAX - 7, i64::MIN + 5, 0, -1, 1];
    for &a in &corners {
        for &b in &corners {
            let xs = [a, b, b, a];
            let ys = [b, b, a, a];
            let c = Cubic::new(
                raw_point(xs[0], ys[0]),
                raw_point(xs[1], ys[1]),
                raw_point(xs[2], ys[2]),
                raw_point(xs[3], ys[3]),
            );
            let p = c.at(ratio(1, 2));
            let (left, right) = c.split(ratio(1, 2));
            assert_eq!(left.p3(), right.p0());
            for (v, at, joint) in [(xs, p.x.raw(), left.p3().x.raw()), (ys, p.y.raw(), left.p3().y.raw())] {
                let blend =
                    v[0] as i128 + 3 * v[1] as i128 + 3 * v[2] as i128 + v[3] as i128;
                assert!((8 * at as i128 - blend).abs() < 32);
                assert!((8 * joint as i128 - blend).abs() <= 24);
                assert!((joint as i128 - at as i128).abs() <= 6);
            }
        }
    }
}
