use shiny::bezier::Cubic;
use shiny::line::Line;
use shiny::point::Point;
use shiny::rect::Rect;
use shiny::scalar::{approx_eq, Scalar};

/// A 32-bit hardware float as the scalar of the geometry.
#[derive(Clone, Copy, PartialEq)]
struct F(f32);

impl std::fmt::Debug for F {
    fn fmt(&self, f: &mut std::fmt::Formatter<'_>) -> std::fmt::Result {
        std::fmt::Debug::fmt(&self.0, f)
    }
}

impl Scalar for F {
    fn from_int(n: i32) -> Self {
        F(n as f32)
    }

    fn max_value() -> Self {
        F(f32::MAX)
    }

    fn epsilon() -> Self {
        F(1e-5)
    }

    fn add(self, rhs: Self) -> Self {
        F(self.0 + rhs.0)
    }

    fn sub(self, rhs: Self) -> Self {
        F(self.0 - rhs.0)
    }

    fn mul(self, rhs: Self) -> Self {
        F(self.0 * rhs.0)
    }

    fn div(self, rhs: Self) -> Self {
        F(self.0 / rhs.0)
    }

    fn neg(self) -> Self {
        F(-self.0)
    }

    fn abs(self) -> Self {
        F(self.0.abs())
    }

    fn sqrt(self) -> Self {
        F(self.0.sqrt())
    }

    fn lt(self, rhs: Self) -> bool {
        self.0 < rhs.0
    }

    fn le(self, rhs: Self) -> bool {
        self.0 <= rhs.0
    }

    fn eq(self, rhs: Self) -> bool {
        self.0 == rhs.0
    }
}

fn pt(x: f32, y: f32) -> Point<F> {
    Point::new(F(x), F(y))
}

fn rect(left: f32, right: f32, top: f32, bottom: f32) -> Rect<F> {
    Rect::new(F(left), F(right), F(top), F(bottom))
}

fn cubic(x: [f32; 4], y: [f32; 4]) -> Cubic<F> {
    Cubic { x: [F(x[0]), F(x[1]), F(x[2]), F(x[3])], y: [F(y[0]), F(y[1]), F(y[2]), F(y[3])] }
}

fn sample() -> Cubic<F> {
    cubic([10.0, 3.0, 12.0, 6.0], [5.0, 11.0, 20.0, 15.0])
}

fn piece(x: &[F], y: &[F], from: usize) -> Cubic<F> {
    Cubic {
        x: [x[from], x[from + 1], x[from + 2], x[from + 3]],
        y: [y[from], y[from + 1], y[from + 2], y[from + 3]],
    }
}

#[test]
fn bezier_cubic_at() {
    let bezier = Cubic::new(pt(10.0, 5.0), pt(3.0, 11.0), pt(12.0, 20.0), pt(6.0, 15.0));

    assert_eq!(bezier.at(F(0.0)), pt(10.0, 5.0));
    assert_eq!(bezier.at(F(0.5)), pt(7.625, 14.125));
    assert_eq!(bezier.at(F(1.0)), pt(6.0, 15.0));
}

#[test]
fn bezier_evaluate() {
    let bezier = sample();

    assert!(bezier.at(F(0.0)).approx_eq(&pt(10.0, 5.0)));
    assert!(bezier.at(F(0.5)).approx_eq(&pt(7.625, 14.125)));
    assert!(bezier.at(F(1.0)).approx_eq(&pt(6.0, 15.0)));
}

#[test]
fn mod_evaluate() {
    let bezier = sample();

    assert!(bezier.at(F(0.0)).approx_eq(&pt(10.0, 5.0)));
    assert!(bezier.at(F(0.5)).approx_eq(&pt(7.625, 14.125)));
    assert!(bezier.at(F(1.0)).approx_eq(&pt(6.0, 15.0)));
}

#[test]
fn at_is_exact_at_both_ends() {
    // Coordinates that the matrix form would round.
    let bezier = cubic([0.1, 1.0e20, -3.3, 0.7], [1.0e-20, 2.5, 1.0e19, -0.3]);
    assert_eq!(bezier.at(F(0.0)), bezier.p0());
    assert_eq!(bezier.at(F(1.0)), bezier.p3());
    assert_eq!(bezier.at(F(-0.0)), bezier.p0());
}

#[test]
fn at_matches_the_bernstein_blend() {
    let bezier = sample();
    for i in 1..20 {
        let t = i as f32 / 20.0;
        let s = 1.0 - t;
        let x = s * s * s * 10.0 + 3.0 * s * s * t * 3.0 + 3.0 * s * t * t * 12.0 + t * t * t * 6.0;
        let y = s * s * s * 5.0 + 3.0 * s * s * t * 11.0 + 3.0 * s * t * t * 20.0 + t * t * t * 15.0;
        assert!(bezier.at(F(t)).approx_eq_within(&pt(x, y), F(1.0e-4)));
    }
}

#[test]
fn bezier_coarse_bounds() {
    let bounds = sample().coarse_bounds();
    assert_eq!(bounds, rect(3.0, 12.0, 5.0, 20.0));
}

#[test]
fn mod_coarse_bounds() {
    let bounds = sample().coarse_bounds();
    assert_eq!(bounds, rect(3.0, 12.0, 5.0, 20.0));
}

#[test]
fn coarse_bounds_hold_every_control_point() {
    let curves = [
        sample(),
        cubic([0.0, 0.0, 0.0, 0.0], [0.0, 0.0, 0.0, 0.0]),
        cubic([-4.0, 9.0, -7.5, 2.0], [8.0, -1.0, 3.0, 8.0]),
        cubic([1.0, 2.0, 3.0, 4.0], [4.0, 3.0, 2.0, 1.0]),
    ];
    for c in curves.iter() {
        let b = c.coarse_bounds();
        for i in 0..4 {
            assert!(b.left.0 <= c.x[i].0 && c.x[i].0 <= b.right.0);
            assert!(b.top.0 <= c.y[i].0 && c.y[i].0 <= b.bottom.0);
        }
        assert!(c.x.iter().any(|x| *x == b.left));
        assert!(c.x.iter().any(|x| *x == b.right));
        assert!(c.y.iter().any(|y| *y == b.top));
        assert!(c.y.iter().any(|y| *y == b.bottom));
    }
}

fn split_halves(bezier: Cubic<F>) {
    let (left, right) = bezier.split(F(0.5));

    for t in 0..50 {
        let t = t as f32 / 50.0;
        let left = left.at(F(t));
        let original = bezier.at(F(t / 2.0));
        assert!(left.approx_eq(&original), "left: {:?}, original: {:?}", left, original);
    }

    for t in 0..50 {
        let t = t as f32 / 50.0;
        let right = right.at(F(t));
        let original = bezier.at(F(0.5 + t / 2.0));
        assert!(right.approx_eq(&original), "right: {:?}, original: {:?}", right, original);
    }
}

#[test]
fn bezier_split() {
    split_halves(sample());
}

#[test]
fn mod_split() {
    split_halves(sample());
}

#[test]
fn split_at_a_quarter_is_exact_on_dyadic_points() {
    let c = cubic([0.0, 16.0, 32.0, 48.0], [0.0, 64.0, 64.0, 0.0]);
    let (left, right) = c.split(F(0.25));
    assert_eq!(left, cubic([0.0, 4.0, 8.0, 12.0], [0.0, 16.0, 28.0, 36.0]));
    assert_eq!(right, cubic([12.0, 24.0, 36.0, 48.0], [36.0, 60.0, 48.0, 0.0]));
    assert_eq!(left.p0(), c.p0());
    assert_eq!(right.p3(), c.p3());
    assert_eq!(left.p3(), right.p0());
}

#[test]
fn split2_cuts_three_pieces() {
    let c = cubic([0.0, 16.0, 32.0, 48.0], [0.0, 64.0, 64.0, 0.0]);
    let (left, mid, right) = c.split2(F(0.25), F(0.75));
    assert_eq!(left, c.split(F(0.25)).0);
    assert_eq!(left.p3(), mid.p0());
    assert_eq!(mid.p3(), right.p0());
    assert_eq!(right.p3(), c.p3());
    for i in 0..=10 {
        let s = i as f32 / 10.0;
        assert!(mid.at(F(s)).approx_eq_within(&c.at(F(0.25 + s * 0.5)), F(1.0e-4)));
        assert!(right.at(F(s)).approx_eq_within(&c.at(F(0.75 + s * 0.25)), F(1.0e-4)));
    }
}

#[test]
fn splitn() {
    let bezier = cubic([5.0, 10.0, 15.0, 20.0], [5.0, 10.0, 15.0, 20.0]);

    let splits = [F(0.25), F(0.5), F(0.75)];
    let mut out_x = vec![];
    let mut out_y = vec![];
    bezier.splitn(&splits, &mut out_x, &mut out_y);

    assert_eq!(out_x.len(), 13);
    assert_eq!(out_y.len(), out_x.len());
    assert_eq!(&out_x, &out_y);

    let a = piece(&out_x, &out_y, 0);
    let b = piece(&out_x, &out_y, 3);
    let c = piece(&out_x, &out_y, 6);
    let d = piece(&out_x, &out_y, 9);

    for t in 0..25 {
        assert!(bezier.at(F(t as f32 / 100.0)).approx_eq(&a.at(F(t as f32 / 25.0))));
        assert!(bezier.at(F(0.25 + (t as f32 / 100.0))).approx_eq(&b.at(F(t as f32 / 25.0))));
        assert!(bezier.at(F(0.50 + (t as f32 / 100.0))).approx_eq(&c.at(F(t as f32 / 25.0))));
        assert!(bezier.at(F(0.75 + (t as f32 / 100.0))).approx_eq(&d.at(F(t as f32 / 25.0))));
    }
}

#[test]
fn splitn_without_cuts_appends_nothing() {
    let mut out_x = vec![F(1.0)];
    let mut out_y = vec![F(2.0)];
    sample().splitn(&[], &mut out_x, &mut out_y);
    assert_eq!(out_x, vec![F(1.0)]);
    assert_eq!(out_y, vec![F(2.0)]);
}

#[test]
fn splitn_keeps_what_the_buffers_held() {
    let c = cubic([0.0, 16.0, 32.0, 48.0], [0.0, 64.0, 64.0, 0.0]);
    let mut out_x = vec![F(-1.0), F(-2.0)];
    let mut out_y = vec![F(-3.0), F(-4.0)];
    c.splitn(&[F(0.25)], &mut out_x, &mut out_y);
    assert_eq!(
        out_x,
        vec![F(-1.0), F(-2.0), F(0.0), F(4.0), F(8.0), F(12.0), F(24.0), F(36.0), F(48.0)]
    );
    assert_eq!(
        out_y,
        vec![F(-3.0), F(-4.0), F(0.0), F(16.0), F(28.0), F(36.0), F(60.0), F(48.0), F(0.0)]
    );
}

#[test]
fn line_between_points() {
    {
        // line with positive slope
        let line = Line::between(pt(2.0, 2.0), pt(6.0, 4.0));
        assert!(line.approx_eq(&Line::new(F(0.4472136), F(-0.8944272), F(0.8944272))));
        assert!(approx_eq(F(2.0), line.y_at(F(2.0)).unwrap().y));
        assert!(approx_eq(F(2.5), line.y_at(F(3.0)).unwrap().y));
        assert!(approx_eq(F(3.0), line.y_at(F(4.0)).unwrap().y));
        assert!(approx_eq(F(3.5), line.y_at(F(5.0)).unwrap().y));
        assert!(approx_eq(F(4.0), line.y_at(F(6.0)).unwrap().y));
    }
    {
        // line with negative slope
        let line = Line::between(pt(2.0, 4.0), pt(6.0, 2.0));
        assert!(approx_eq(F(4.0), line.y_at(F(2.0)).unwrap().y));
        assert!(approx_eq(F(3.5), line.y_at(F(3.0)).unwrap().y));
        assert!(approx_eq(F(3.0), line.y_at(F(4.0)).unwrap().y));
        assert!(approx_eq(F(2.5), line.y_at(F(5.0)).unwrap().y));
        assert!(approx_eq(F(2.0), line.y_at(F(6.0)).unwrap().y));
    }
    {
        // vertical line
        let line = Line::between(pt(5.0, 1.0), pt(5.0, 12.0));
        assert_eq!(line.y_at(F(1.0)), None);
    }
    {
        // horizontal line
        let line = Line::between(pt(2.0, 2.0), pt(6.0, 2.0));
        assert_eq!(line.y_at(F(2.0)).unwrap().y, F(2.0));
        assert_eq!(line.y_at(F(6.0)).unwrap().y, F(2.0));
        assert_eq!(line.y_at(F(100.0)).unwrap().y, F(2.0));
    }
}

#[test]
fn line_distance() {
    let line = Line::between(pt(2.0, 2.0), pt(6.0, 4.0));
    assert_eq!(line.signed_distance_to(pt(2.0, 2.0)), F(0.0));
    // point on same side as the origin
    assert!(approx_eq(F(0.89442706), line.signed_distance_to(pt(2.0, 1.0))));
    // point on opposite side of the origin
    assert!(approx_eq(F(-0.89442706), line.signed_distance_to(pt(2.0, 3.0))));
}

#[test]
fn line_is_normalized() {
    let line = Line::new(F(3.0), F(4.0), F(10.0));
    assert_eq!(line, Line { a: F(0.6), b: F(0.8), c: F(2.0) });
    assert_eq!(line.neg(), Line { a: F(-0.6), b: F(-0.8), c: F(-2.0) });
    assert_eq!(Line::with_c(line, F(7.0)), Line { a: F(0.6), b: F(0.8), c: F(7.0) });
    assert_eq!(line.parallel_through(pt(5.0, 0.0)).c, F(-3.0));
    assert_eq!(Line { a: F(2.0), b: F(0.0), c: F(-3.0) }.x_intercept(), F(1.5));
}

#[test]
fn rect_position() {
    let r = rect(1.0, 2.0, 3.0, 4.0);
    assert_eq!(r.left, F(1.0));
    assert_eq!(r.right, F(2.0));
    assert_eq!(r.top, F(3.0));
    assert_eq!(r.bottom, F(4.0));
}

fn check_intersections() {
    {
        // miss on x-axis
        let left = rect(10.0, 20.0, 10.0, 20.0);
        let right = rect(30.0, 40.0, 10.0, 20.0);

        assert!(!left.intersects_with(&right));
        assert!(!right.intersects_with(&left));
    }
    {
        // miss on y axis
        let top = rect(10.0, 20.0, 10.0, 20.0);
        let bottom = rect(10.0, 20.0, 30.0, 40.0);

        assert!(!top.intersects_with(&bottom));
        assert!(!bottom.intersects_with(&top));
    }
    {
        // one in the other
        let outer = rect(10.0, 20.0, 10.0, 20.0);
        let inner = rect(12.0, 18.0, 12.0, 20.0);

        assert!(outer.intersects_with(&inner));
        assert!(inner.intersects_with(&outer));
    }
    {
        // one is the other
        let a = rect(10.0, 20.0, 10.0, 20.0);
        let b = a;

        assert!(a.intersects_with(&b));
        assert!(b.intersects_with(&a));
    }
    {
        // normal intersection
        let a = rect(10.0, 20.0, 10.0, 20.0);
        let b = rect(15.0, 25.0, 15.0, 25.0);

        assert!(a.intersects_with(&b));
        assert!(b.intersects_with(&a));
    }
    {
        // line intersection
        let horizontal = rect(10.0, 20.0, 10.0, 10.0);
        let vertical = rect(15.0, 15.0, 10.0, 20.0);

        assert!(horizontal.intersects_with(&vertical));
        assert!(vertical.intersects_with(&horizontal));
    }
}

#[test]
fn rect_intersects() {
    check_intersections();
}

#[test]
fn bounding_box() {
    check_intersections();
}

#[test]
fn rect_measures_and_combinations() {
    let a = rect(1.0, 5.0, 2.0, 10.0);
    let b = rect(3.0, 9.0, 0.0, 4.0);
    assert_eq!(a.width(), F(4.0));
    assert_eq!(a.height(), F(8.0));
    assert_eq!(a.area(), F(32.0));
    assert_eq!(a.centroid(), pt(3.0, 6.0));
    assert_eq!(a.origin(), pt(1.0, 2.0));
    assert_eq!(a.union(b), rect(1.0, 9.0, 0.0, 10.0));
    assert_eq!(a.intersection(b), rect(3.0, 5.0, 2.0, 4.0));
    assert_eq!(a.intersection(rect(6.0, 7.0, 2.0, 3.0)), Rect::empty());
    assert_eq!(Rect::<F>::empty(), rect(0.0, 0.0, 0.0, 0.0));
}
