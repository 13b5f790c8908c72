//! Lines in normalized standard form.
use crate::point::Point;
use crate::scalar::{approx_eq, approx_eq_spec, zero, zero_spec, Scalar};
use vstd::prelude::*;

verus! {

/// A line `a * x + b * y + c = 0`. The constructors [`Line::new`] and
/// [`Line::between`] divide the three coefficients by `sqrt(a * a + b * b)`,
/// so that `(a, b)` has length one as far as the scalar can represent it.
#[derive(Clone, Copy, Debug, PartialEq)]
pub struct Line<S: Scalar> {
    pub a: S,
    pub b: S,
    pub c: S,
}

impl<S: Scalar> Line<S> {
    /// The line with the given coefficients, normalized.
    pub open spec fn new_spec(a: S, b: S, c: S) -> Self {
        let div = a.mul_spec(a).add_spec(b.mul_spec(b)).sqrt_spec();
        Line { a: a.div_spec(div), b: b.div_spec(div), c: c.div_spec(div) }
    }

    /// The line with the given coefficients, normalized.
    pub fn new(a: S, b: S, c: S) -> (r: Self)
        ensures
            r == Self::new_spec(a, b, c),
    {
        let div = a.mul(a).add(b.mul(b)).sqrt();
        Line { a: a.div(div), b: b.div(div), c: c.div(div) }
    }

    /// The line with the direction of `other` and the offset `c`, taken as it
    /// is.
    pub fn with_c(other: Self, c: S) -> (r: Self)
        ensures
            r == (Line { a: other.a, b: other.b, c }),
    {
        Line { a: other.a, b: other.b, c }
    }

    /// The line through `p1` and `p2`. Where the two points agree in `x`
    /// within the shared tolerance the result is the upright line
    /// `new(1, 0, -p1.x)`; otherwise it is `new(slope, -1, offset)` with
    /// `slope = dy / dx` and `offset = -(slope * p1.x) + p1.y`.
    pub open spec fn between_spec(p1: Point<S>, p2: Point<S>) -> Self {
        if approx_eq_spec(p1.x, p2.x) {
            Self::new_spec(S::from_int_spec(1), zero_spec(), p1.x.neg_spec())
        } else {
            let delta = p2.sub_spec(p1);
            let slope = delta.y.div_spec(delta.x);
            let offset = slope.mul_spec(p1.x).neg_spec().add_spec(p1.y);
            Self::new_spec(slope, S::from_int_spec(-1), offset)
        }
    }

    /// The line through `p1` and `p2`. Where the two points agree in `x`
    /// within the shared tolerance the result is the upright line
    /// `new(1, 0, -p1.x)`; otherwise it is `new(slope, -1, offset)` with
    /// `slope = dy / dx` and `offset = -(slope * p1.x) + p1.y`.
    pub fn between(p1: Point<S>, p2: Point<S>) -> (r: Self)
        ensures
            r == Self::between_spec(p1, p2),
    {
        if approx_eq(p1.x, p2.x) {
            Self::new(S::from_int(1), zero(), p1.x.neg())
        } else {
            let delta = p2.sub(p1);
            let slope = delta.y.div(delta.x);
            let offset = slope.mul(p1.x).neg().add(p1.y);
            Self::new(slope, S::from_int(-1), offset)
        }
    }

    /// The point of the line at the given `x`, or `None` where `b` compares
    /// equal to zero: `y = -(a * x + c) / b`.
    pub open spec fn y_at_spec(self, x: S) -> Option<Point<S>> {
        if self.b.eq_spec(zero_spec()) {
            None
        } else {
            Some(Point { x, y: self.a.mul_spec(x).add_spec(self.c).neg_spec().div_spec(self.b) })
        }
    }

    /// The point of the line at the given `x`, or `None` where `b` compares
    /// equal to zero: `y = -(a * x + c) / b`.
    pub fn y_at(&self, x: S) -> (r: Option<Point<S>>)
        ensures
            r == self.y_at_spec(x),
    {
        if self.b.eq(zero()) {
            None
        } else {
            Some(Point { x, y: self.a.mul(x).add(self.c).neg().div(self.b) })
        }
    }

    /// Where the line crosses the x axis: `-c / a`.
    pub open spec fn x_intercept_spec(self) -> S {
        self.c.neg_spec().div_spec(self.a)
    }

    /// Where the line crosses the x axis: `-c / a`.
    pub fn x_intercept(&self) -> (r: S)
        ensures
            r == self.x_intercept_spec(),
    {
        self.c.neg().div(self.a)
    }

    /// The signed distance from the line to `point`: `a * x + b * y + c`.
    pub open spec fn signed_distance_to_spec(self, point: Point<S>) -> S {
        self.a.mul_spec(point.x).add_spec(self.b.mul_spec(point.y)).add_spec(self.c)
    }

    /// The signed distance from the line to `point`: `a * x + b * y + c`.
    pub fn signed_distance_to(&self, point: Point<S>) -> (r: S)
        ensures
            r == self.signed_distance_to_spec(point),
    {
        self.a.mul(point.x).add(self.b.mul(point.y)).add(self.c)
    }

    /// The line with the same direction through `point`:
    /// `c = -(a * x) - b * y`.
    pub open spec fn parallel_through_spec(self, point: Point<S>) -> Self {
        Line {
            a: self.a,
            b: self.b,
            c: self.a.mul_spec(point.x).neg_spec().sub_spec(self.b.mul_spec(point.y)),
        }
    }

    /// The line with the same direction through `point`:
    /// `c = -(a * x) - b * y`.
    pub fn parallel_through(&self, point: Point<S>) -> (r: Self)
        ensures
            r == self.parallel_through_spec(point),
    {
        Line { a: self.a, b: self.b, c: self.a.mul(point.x).neg().sub(self.b.mul(point.y)) }
    }

    /// The same line with its positive side flipped: all three coefficients
    /// negated.
    pub open spec fn neg_spec(self) -> Self {
        Line { a: self.a.neg_spec(), b: self.b.neg_spec(), c: self.c.neg_spec() }
    }

    /// The same line with its positive side flipped: all three coefficients
    /// negated.
    pub fn neg(self) -> (r: Self)
        ensures
            r == self.neg_spec(),
    {
        Line { a: self.a.neg(), b: self.b.neg(), c: self.c.neg() }
    }

    /// Whether the three coefficients are within the shared tolerance of
    /// those of `rhs`.
    pub open spec fn approx_eq_spec(self, rhs: Self) -> bool {
        approx_eq_spec(self.a, rhs.a) && approx_eq_spec(self.b, rhs.b) && approx_eq_spec(
            self.c,
            rhs.c,
        )
    }

    /// Whether the three coefficients are within the shared tolerance of
    /// those of `rhs`.
    pub fn approx_eq(&self, rhs: &Self) -> (r: bool)
        ensures
            r == self.approx_eq_spec(*rhs),
    {
        let a = approx_eq(self.a, rhs.a);
        let b = approx_eq(self.b, rhs.b);
        let c = approx_eq(self.c, rhs.c);
        a && b && c
    }
}

} // verus!
