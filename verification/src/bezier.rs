//! Cubic Bézier curves: evaluation, bounds and de Casteljau splitting.
use crate::float4::Float4;
use crate::matrix::{Mat1x4, Mat4x2, Mat4x4};
use crate::point::Point;
use crate::rect::Rect;
use crate::scalar::{
    lemma_max_is_upper_bound, lemma_min_is_lower_bound, max_spec, min_spec, one, one_spec, ratio,
    ratio_spec, strict_order, units_distinct, zero, zero_spec, Scalar,
};
use vstd::prelude::*;

verus! {

/// A cubic Bézier curve, held as the x and the y coordinates of its four
/// control points. Its parameter runs from 0 at the first control point to 1
/// at the last.
#[derive(Clone, Copy, Debug, PartialEq)]
pub struct Cubic<S: Scalar> {
    pub x: [S; 4],
    pub y: [S; 4],
}

impl<S: Scalar> Cubic<S> {
    /// The curve with the given control points.
    pub open spec fn from_points_spec(p0: Point<S>, p1: Point<S>, p2: Point<S>, p3: Point<S>) -> Self {
        Cubic { x: [p0.x, p1.x, p2.x, p3.x], y: [p0.y, p1.y, p2.y, p3.y] }
    }

    /// The curve with the given control points.
    pub fn new(p1: Point<S>, p2: Point<S>, p3: Point<S>, p4: Point<S>) -> (r: Self)
        ensures
            r == Self::from_points_spec(p1, p2, p3, p4),
    {
        Cubic { x: [p1.x, p2.x, p3.x, p4.x], y: [p1.y, p2.y, p3.y, p4.y] }
    }

    /// The cubic curve that runs as the quadratic curve with the control
    /// points `q0`, `q1`, `q2` does: the inner control points are
    /// `q0 / 3 + 2 * q1 / 3` and `2 * q1 / 3 + q2 / 3`.
    pub open spec fn elevated_spec(q0: Point<S>, q1: Point<S>, q2: Point<S>) -> Self {
        let third = ratio_spec::<S>(1, 3);
        let two_thirds = ratio_spec::<S>(2, 3);
        Self::from_points_spec(
            q0,
            Point {
                x: q0.x.mul_spec(third).add_spec(q1.x.mul_spec(two_thirds)),
                y: q0.y.mul_spec(third).add_spec(q1.y.mul_spec(two_thirds)),
            },
            Point {
                x: q1.x.mul_spec(two_thirds).add_spec(q2.x.mul_spec(third)),
                y: q1.y.mul_spec(two_thirds).add_spec(q2.y.mul_spec(third)),
            },
            q2,
        )
    }

    /// Raises a quadratic curve to a cubic one.
    pub fn elevate(q0: Point<S>, q1: Point<S>, q2: Point<S>) -> (r: Self)
        ensures
            r == Self::elevated_spec(q0, q1, q2),
    {
        let third = ratio::<S>(1, 3);
        let two_thirds = ratio::<S>(2, 3);
        Self::new(
            q0,
            Point {
                x: q0.x.mul(third).add(q1.x.mul(two_thirds)),
                y: q0.y.mul(third).add(q1.y.mul(two_thirds)),
            },
            Point {
                x: q1.x.mul(two_thirds).add(q2.x.mul(third)),
                y: q1.y.mul(two_thirds).add(q2.y.mul(third)),
            },
            q2,
        )
    }

    /// The control point with the given index.
    pub open spec fn point_spec(self, i: int) -> Point<S> {
        Point { x: self.x[i], y: self.y[i] }
    }

    /// The first control point.
    pub fn p0(&self) -> (r: Point<S>)
        ensures
            r == self.point_spec(0),
    {
        Point { x: self.x[0], y: self.y[0] }
    }

    /// The second control point.
    pub fn p1(&self) -> (r: Point<S>)
        ensures
            r == self.point_spec(1),
    {
        Point { x: self.x[1], y: self.y[1] }
    }

    /// The third control point.
    pub fn p2(&self) -> (r: Point<S>)
        ensures
            r == self.point_spec(2),
    {
        Point { x: self.x[2], y: self.y[2] }
    }

    /// The last control point.
    pub fn p3(&self) -> (r: Point<S>)
        ensures
            r == self.point_spec(3),
    {
        Point { x: self.x[3], y: self.y[3] }
    }

    /// The matrix that takes Bernstein coefficients to the power basis.
    pub open spec fn basis_spec() -> Mat4x4<S> {
        let n = |k: int| S::from_int_spec(k);
        Mat4x4 {
            r0: Float4 { a: n(1), b: n(0), c: n(0), d: n(0) },
            r1: Float4 { a: n(-3), b: n(3), c: n(0), d: n(0) },
            r2: Float4 { a: n(3), b: n(-6), c: n(3), d: n(0) },
            r3: Float4 { a: n(-1), b: n(3), c: n(-3), d: n(1) },
        }
    }

    /// The matrix form `T * M * P` of the curve at `t`, with
    /// `T = [1, t, t * t, t * t * t]`, the basis matrix `M`, and the control
    /// points as the rows of `P`.
    pub open spec fn power_form_spec(self, t: S) -> Point<S> {
        let row = Mat1x4 {
            r0: Float4 { a: one_spec(), b: t, c: t.mul_spec(t), d: t.mul_spec(t).mul_spec(t) },
        };
        let p = Mat4x2 { c0: Float4::from_array_spec(self.x), c1: Float4::from_array_spec(self.y) };
        let v = row.mul_4x4_spec(Self::basis_spec()).mul_4x2_spec(p);
        Point { x: v.x, y: v.y }
    }

    /// The position of the curve at `t`: the first control point where `t`
    /// compares equal to zero, the last where it compares equal to one, and
    /// the matrix form everywhere else.
    pub open spec fn at_spec(self, t: S) -> Point<S> {
        if t.eq_spec(zero_spec()) {
            self.point_spec(0)
        } else if t.eq_spec(one_spec()) {
            self.point_spec(3)
        } else {
            self.power_form_spec(t)
        }
    }

    /// The position of the curve at `t`: the first control point where `t`
    /// compares equal to zero, the last where it compares equal to one, and
    /// the matrix form everywhere else.
    pub fn at(&self, t: S) -> (r: Point<S>)
        ensures
            r == self.at_spec(t),
    {
        if t.eq(zero()) {
            self.p0()
        } else if t.eq(one()) {
            self.p3()
        } else {
            let tt = t.mul(t);
            let row = Mat1x4::new(one(), t, tt, tt.mul(t));
            let m = Mat4x4::new(
                S::from_int(1),
                S::from_int(0),
                S::from_int(0),
                S::from_int(0),
                S::from_int(-3),
                S::from_int(3),
                S::from_int(0),
                S::from_int(0),
                S::from_int(3),
                S::from_int(-6),
                S::from_int(3),
                S::from_int(0),
                S::from_int(-1),
                S::from_int(3),
                S::from_int(-3),
                S::from_int(1),
            );
            let p = Mat4x2::from_columns(Float4::from_array(&self.x), Float4::from_array(&self.y));
            let v = row.mul_4x4(m).mul_4x2(p);
            Point { x: v.x, y: v.y }
        }
    }

    /// The axis-aligned box spanned by the smallest and the largest
    /// coordinate of the four control points on each axis.
    pub open spec fn coarse_bounds_spec(self) -> Rect<S> {
        let x = Float4::from_array_spec(self.x);
        let y = Float4::from_array_spec(self.y);
        let z = Float4::splat_spec(zero_spec());
        let lo = Float4::horizontal_min4_spec(x, y, z, z);
        let hi = Float4::horizontal_max4_spec(x, y, z, z);
        Rect { left: lo.a, right: hi.a, top: lo.b, bottom: hi.b }
    }

    /// The axis-aligned box spanned by the smallest and the largest
    /// coordinate of the four control points on each axis.
    pub fn coarse_bounds(&self) -> (r: Rect<S>)
        ensures
            r == self.coarse_bounds_spec(),
    {
        let z = Float4::splat(zero());
        let (lo, hi) = Float4::horizontal_min_max4(
            Float4::from_array(&self.x),
            Float4::from_array(&self.y),
            z,
            z,
        );
        Rect::new(lo.a, hi.a, lo.b, hi.b)
    }

    /// De Casteljau subdivision at `t`: three rounds of interpolation
    /// between neighbouring points. The left part runs from the first
    /// control point to the point at `t`, the right part from there to the
    /// last control point.
    pub open spec fn split_spec(self, t: S) -> (Self, Self) {
        let mid_01 = self.point_spec(0).lerp_spec(t, self.point_spec(1));
        let mid_12 = self.point_spec(1).lerp_spec(t, self.point_spec(2));
        let mid_23 = self.point_spec(2).lerp_spec(t, self.point_spec(3));
        let mid_01_12 = mid_01.lerp_spec(t, mid_12);
        let mid_12_23 = mid_12.lerp_spec(t, mid_23);
        let midpoint = mid_01_12.lerp_spec(t, mid_12_23);
        (
            Self::from_points_spec(self.point_spec(0), mid_01, mid_01_12, midpoint),
            Self::from_points_spec(midpoint, mid_12_23, mid_23, self.point_spec(3)),
        )
    }

    /// De Casteljau subdivision at `t`: three rounds of interpolation
    /// between neighbouring points. The left part runs from the first
    /// control point to the point at `t`, the right part from there to the
    /// last control point.
    pub fn split(&self, t: S) -> (r: (Self, Self))
        ensures
            r == self.split_spec(t),
    {
        let mid_01 = self.p0().lerp(t, &self.p1());
        let mid_12 = self.p1().lerp(t, &self.p2());
        let mid_23 = self.p2().lerp(t, &self.p3());
        let mid_01_12 = mid_01.lerp(t, &mid_12);
        let mid_12_23 = mid_12.lerp(t, &mid_23);
        let midpoint = mid_01_12.lerp(t, &mid_12_23);
        (
            Self::new(self.p0(), mid_01, mid_01_12, midpoint),
            Self::new(midpoint, mid_12_23, mid_23, self.p3()),
        )
    }

    /// The parameter of the second cut of a two-point split, rescaled into
    /// what the first cut left: `(t2 - t1) / (1 - t1)`.
    pub open spec fn rescale_spec(t1: S, t2: S) -> S {
        t2.sub_spec(t1).div_spec(one_spec::<S>().sub_spec(t1))
    }

    /// The split at `t1` and `t2`: a split at `t1`, then a split of the right
    /// part at the rescaled `t2`.
    pub open spec fn split2_spec(self, t1: S, t2: S) -> (Self, Self, Self) {
        let (left, rest) = self.split_spec(t1);
        let (mid, right) = rest.split_spec(Self::rescale_spec(t1, t2));
        (left, mid, right)
    }

    /// The split at `t1` and `t2`: a split at `t1`, then a split of the right
    /// part at the rescaled `t2`.
    pub fn split2(&self, t1: S, t2: S) -> (r: (Self, Self, Self))
        ensures
            r == self.split2_spec(t1, t2),
    {
        let (left, rest) = self.split(t1);
        let (mid, right) = rest.split(t2.sub(t1).div(one::<S>().sub(t1)));
        (left, mid, right)
    }

    /// The last three coordinates on each axis.
    pub open spec fn tail_spec(self) -> (Seq<S>, Seq<S>) {
        (seq![self.x[1], self.x[2], self.x[3]], seq![self.y[1], self.y[2], self.y[3]])
    }

    /// What the cuts `ts`, the first of them at index `k`, append for the
    /// part of the curve that is left after a cut at `prev_t`: the last three
    /// points of every piece.
    pub open spec fn splitn_rest_spec(self, prev_t: S, ts: Seq<S>, k: int) -> (Seq<S>, Seq<S>)
        decreases ts.len() - k,
    {
        if 0 <= k < ts.len() {
            let (left, rest) = self.split_spec(Self::rescale_spec(prev_t, ts[k]));
            let more = rest.splitn_rest_spec(ts[k], ts, k + 1);
            (left.tail_spec().0 + more.0, left.tail_spec().1 + more.1)
        } else {
            self.tail_spec()
        }
    }

    /// The points that `splitn` appends: nothing where `ts` is empty;
    /// otherwise the first control point, then the last three points of each
    /// of the `ts.len() + 1` pieces.
    pub open spec fn splitn_spec(self, ts: Seq<S>) -> (Seq<S>, Seq<S>) {
        if ts.len() == 0 {
            (Seq::empty(), Seq::empty())
        } else {
            let rest = self.splitn_rest_spec(zero_spec(), ts, 0);
            (seq![self.x[0]] + rest.0, seq![self.y[0]] + rest.1)
        }
    }

    /// `splitn_rest_spec` yields three points for each remaining piece.
    pub proof fn lemma_splitn_rest_len(self, prev_t: S, ts: Seq<S>, k: int)
        requires
            0 <= k <= ts.len(),
        ensures
            self.splitn_rest_spec(prev_t, ts, k).0.len() == 3 * (ts.len() - k + 1),
            self.splitn_rest_spec(prev_t, ts, k).1.len() == 3 * (ts.len() - k + 1),
        decreases ts.len() - k,
    {
        if k < ts.len() {
            let (left, rest) = self.split_spec(Self::rescale_spec(prev_t, ts[k]));
            rest.lemma_splitn_rest_len(ts[k], ts, k + 1);
        }
    }

    /// `splitn_rest_spec` ends with the last control point of the curve it
    /// was asked about.
    pub proof fn lemma_splitn_rest_last(self, prev_t: S, ts: Seq<S>, k: int)
        requires
            0 <= k <= ts.len(),
        ensures
            self.splitn_rest_spec(prev_t, ts, k).0.last() == self.x[3],
            self.splitn_rest_spec(prev_t, ts, k).1.last() == self.y[3],
        decreases ts.len() - k,
    {
        if k < ts.len() {
            let (left, rest) = self.split_spec(Self::rescale_spec(prev_t, ts[k]));
            rest.lemma_splitn_rest_last(ts[k], ts, k + 1);
            rest.lemma_splitn_rest_len(ts[k], ts, k + 1);
        }
    }

    /// Cutting at one or more parameters yields `3 * ts.len() + 4` points on
    /// each axis; they start with the first control point of the curve and
    /// end with its last.
    pub proof fn lemma_splitn_shape(self, ts: Seq<S>)
        requires
            ts.len() > 0,
        ensures
            self.splitn_spec(ts).0.len() == 3 * ts.len() + 4,
            self.splitn_spec(ts).1.len() == 3 * ts.len() + 4,
            self.splitn_spec(ts).0[0] == self.x[0],
            self.splitn_spec(ts).1[0] == self.y[0],
            self.splitn_spec(ts).0.last() == self.x[3],
            self.splitn_spec(ts).1.last() == self.y[3],
    {
        self.lemma_splitn_rest_len(zero_spec(), ts, 0);
        self.lemma_splitn_rest_last(zero_spec(), ts, 0);
    }

    /// Cuts the curve at every parameter of `t`, which is sorted upwards, and
    /// appends the points of the pieces to the two buffers. Each piece but
    /// the first shares its first point with the piece before it, so that
    /// point is written once. With no parameters nothing is appended.
    pub fn splitn(&self, t: &[S], buffer_x: &mut Vec<S>, buffer_y: &mut Vec<S>)
        ensures
            final(buffer_x)@ == old(buffer_x)@ + self.splitn_spec(t@).0,
            final(buffer_y)@ == old(buffer_y)@ + self.splitn_spec(t@).1,
    {
        if t.len() == 0 {
            assert(buffer_x@ =~= old(buffer_x)@ + self.splitn_spec(t@).0);
            assert(buffer_y@ =~= old(buffer_y)@ + self.splitn_spec(t@).1);
            return ;
        }
        let mut prev_t: S = zero();
        let mut remainder: Cubic<S> = *self;
        buffer_x.push(self.x[0]);
        buffer_y.push(self.y[0]);
        let mut k: usize = 0;
        while k < t.len()
            invariant
                0 <= k <= t.len(),
                t.len() > 0,
                buffer_x@ + remainder.splitn_rest_spec(prev_t, t@, k as int).0 == old(buffer_x)@
                    + self.splitn_spec(t@).0,
                buffer_y@ + remainder.splitn_rest_spec(prev_t, t@, k as int).1 == old(buffer_y)@
                    + self.splitn_spec(t@).1,
            decreases t.len() - k,
        {
            let ghost before_x = buffer_x@;
            let ghost before_y = buffer_y@;
            let ghost whole = remainder.splitn_rest_spec(prev_t, t@, k as int);
            let at = t[k].sub(prev_t).div(one::<S>().sub(prev_t));
            let (left, rest) = remainder.split(at);
            buffer_x.push(left.x[1]);
            buffer_x.push(left.x[2]);
            buffer_x.push(left.x[3]);
            buffer_y.push(left.y[1]);
            buffer_y.push(left.y[2]);
            buffer_y.push(left.y[3]);
            proof {
                let more = rest.splitn_rest_spec(t[k as int], t@, k + 1);
                assert(whole.0 == left.tail_spec().0 + more.0);
                assert(whole.1 == left.tail_spec().1 + more.1);
                assert(buffer_x@ =~= before_x + left.tail_spec().0);
                assert(buffer_y@ =~= before_y + left.tail_spec().1);
                assert(buffer_x@ + more.0 =~= before_x + whole.0);
                assert(buffer_y@ + more.1 =~= before_y + whole.1);
            }
            prev_t = t[k];
            remainder = rest;
            k = k + 1;
        }
        let ghost before_x = buffer_x@;
        let ghost before_y = buffer_y@;
        buffer_x.push(remainder.x[1]);
        buffer_x.push(remainder.x[2]);
        buffer_x.push(remainder.x[3]);
        buffer_y.push(remainder.y[1]);
        buffer_y.push(remainder.y[2]);
        buffer_y.push(remainder.y[3]);
        proof {
            assert(buffer_x@ =~= before_x + remainder.tail_spec().0);
            assert(buffer_y@ =~= before_y + remainder.tail_spec().1);
        }
    }

    /// The curve is exact at both ends: at zero it is the first control
    /// point, at one the last.
    pub proof fn lemma_at_endpoints(self)
        requires
            units_distinct::<S>(),
        ensures
            self.at_spec(zero_spec()) == self.point_spec(0),
            self.at_spec(one_spec()) == self.point_spec(3),
    {
    }

    /// The two parts of a split meet: the left part starts where the curve
    /// starts, the right part ends where the curve ends, and the left part
    /// ends where the right part starts.
    pub proof fn lemma_split_joins(self, t: S)
        ensures
            self.split_spec(t).0.point_spec(0) == self.point_spec(0),
            self.split_spec(t).1.point_spec(3) == self.point_spec(3),
            self.split_spec(t).0.point_spec(3) == self.split_spec(t).1.point_spec(0),
    {
    }

    /// The coarse bounds hold all four control points, and each edge of the
    /// bounds is a coordinate of one of them.
    pub proof fn lemma_coarse_bounds_hold_control_points(self, i: int)
        requires
            strict_order::<S>(),
            0 <= i < 4,
        ensures
            self.coarse_bounds_spec().holds_spec(self.point_spec(i)),
            exists|j: int| 0 <= j < 4 && self.coarse_bounds_spec().left == self.x[j],
            exists|j: int| 0 <= j < 4 && self.coarse_bounds_spec().right == self.x[j],
            exists|j: int| 0 <= j < 4 && self.coarse_bounds_spec().top == self.y[j],
            exists|j: int| 0 <= j < 4 && self.coarse_bounds_spec().bottom == self.y[j],
    {
        let b = self.coarse_bounds_spec();
        lemma_min4(self.x[0], self.x[1], self.x[2], self.x[3]);
        lemma_min4(self.y[0], self.y[1], self.y[2], self.y[3]);
        lemma_max4(self.x[0], self.x[1], self.x[2], self.x[3]);
        lemma_max4(self.y[0], self.y[1], self.y[2], self.y[3]);
        assert(b.left == self.x[0] || b.left == self.x[1] || b.left == self.x[2] || b.left
            == self.x[3]);
        assert(b.right == self.x[0] || b.right == self.x[1] || b.right == self.x[2] || b.right
            == self.x[3]);
        assert(b.top == self.y[0] || b.top == self.y[1] || b.top == self.y[2] || b.top
            == self.y[3]);
        assert(b.bottom == self.y[0] || b.bottom == self.y[1] || b.bottom == self.y[2] || b.bottom
            == self.y[3]);
    }
}

/// The smallest of four scalars, searched from the last to the first, is one
/// of them and none of them is strictly below it.
pub proof fn lemma_min4<S: Scalar>(a: S, b: S, c: S, d: S)
    requires
        strict_order::<S>(),
    ensures
        ({
            let m = min_spec(a, min_spec(b, min_spec(c, d)));
            &&& !a.lt_spec(m)
            &&& !b.lt_spec(m)
            &&& !c.lt_spec(m)
            &&& !d.lt_spec(m)
            &&& (m == a || m == b || m == c || m == d)
        }),
{
    let m2 = min_spec(c, d);
    let m1 = min_spec(b, m2);
    let m0 = min_spec(a, m1);
    lemma_min_is_lower_bound(c, d);
    lemma_min_is_lower_bound(b, m2);
    lemma_min_is_lower_bound(a, m1);
    if c.lt_spec(m1) && m1 != m2 {
        assert(c.lt_spec(m2));
    }
    if d.lt_spec(m1) && m1 != m2 {
        assert(d.lt_spec(m2));
    }
    if b.lt_spec(m0) && m0 != m1 {
        assert(b.lt_spec(m1));
    }
    if c.lt_spec(m0) && m0 != m1 {
        assert(c.lt_spec(m1));
    }
    if d.lt_spec(m0) && m0 != m1 {
        assert(d.lt_spec(m1));
    }
}

/// The largest of four scalars, searched from the last to the first, is one
/// of them and it is strictly below none of them.
pub proof fn lemma_max4<S: Scalar>(a: S, b: S, c: S, d: S)
    requires
        strict_order::<S>(),
    ensures
        ({
            let m = max_spec(a, max_spec(b, max_spec(c, d)));
            &&& !m.lt_spec(a)
            &&& !m.lt_spec(b)
            &&& !m.lt_spec(c)
            &&& !m.lt_spec(d)
            &&& (m == a || m == b || m == c || m == d)
        }),
{
    let m2 = max_spec(c, d);
    let m1 = max_spec(b, m2);
    let m0 = max_spec(a, m1);
    lemma_max_is_upper_bound(c, d);
    lemma_max_is_upper_bound(b, m2);
    lemma_max_is_upper_bound(a, m1);
    if m1.lt_spec(c) && m1 != m2 {
        assert(m2.lt_spec(c));
    }
    if m1.lt_spec(d) && m1 != m2 {
        assert(m2.lt_spec(d));
    }
    if m0.lt_spec(b) && m0 != m1 {
        assert(m1.lt_spec(b));
    }
    if m0.lt_spec(c) && m0 != m1 {
        assert(m1.lt_spec(c));
    }
    if m0.lt_spec(d) && m0 != m1 {
        assert(m1.lt_spec(d));
    }
}

} // verus!
