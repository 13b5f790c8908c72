//! Points and vectors in the plane.
use crate::scalar::{approx_eq_within, approx_eq_within_spec, epsilon, epsilon_spec, lerp, lerp_spec, Scalar};
use vstd::prelude::*;

verus! {

/// A point in 2D space.
#[derive(Clone, Copy, Debug, PartialEq)]
pub struct Point<S: Scalar> {
    pub x: S,
    pub y: S,
}

/// A vector in 2D space: the difference of two points.
#[derive(Clone, Copy, Debug, PartialEq)]
pub struct Vec2<S: Scalar> {
    pub x: S,
    pub y: S,
}

/// The older name of [`Vec2`].
pub type Float2<S> = Vec2<S>;

impl<S: Scalar> Vec2<S> {
    /// The vector with the given coordinates.
    pub fn new(x: S, y: S) -> (r: Self)
        ensures
            r == (Vec2 { x, y }),
    {
        Vec2 { x, y }
    }

    /// The x coordinate.
    pub fn x(self) -> (r: S)
        ensures
            r == self.x,
    {
        self.x
    }

    /// The y coordinate.
    pub fn y(self) -> (r: S)
        ensures
            r == self.y,
    {
        self.y
    }

    /// Both coordinates negated.
    pub open spec fn neg_spec(self) -> Self {
        Vec2 { x: self.x.neg_spec(), y: self.y.neg_spec() }
    }

    /// Both coordinates negated.
    pub fn neg(self) -> (r: Self)
        ensures
            r == self.neg_spec(),
    {
        Vec2 { x: self.x.neg(), y: self.y.neg() }
    }

    /// The sum of the two vectors.
    pub open spec fn add_spec(self, rhs: Self) -> Self {
        Vec2 { x: self.x.add_spec(rhs.x), y: self.y.add_spec(rhs.y) }
    }

    /// The sum of the two vectors.
    pub fn add(self, rhs: Self) -> (r: Self)
        ensures
            r == self.add_spec(rhs),
    {
        Vec2 { x: self.x.add(rhs.x), y: self.y.add(rhs.y) }
    }

    /// The difference of the two vectors.
    pub open spec fn sub_spec(self, rhs: Self) -> Self {
        Vec2 { x: self.x.sub_spec(rhs.x), y: self.y.sub_spec(rhs.y) }
    }

    /// The difference of the two vectors.
    pub fn sub(self, rhs: Self) -> (r: Self)
        ensures
            r == self.sub_spec(rhs),
    {
        Vec2 { x: self.x.sub(rhs.x), y: self.y.sub(rhs.y) }
    }

    /// Both coordinates plus `s`.
    pub open spec fn add_scalar_spec(self, s: S) -> Self {
        Vec2 { x: self.x.add_spec(s), y: self.y.add_spec(s) }
    }

    /// Both coordinates plus `s`.
    pub fn add_scalar(self, s: S) -> (r: Self)
        ensures
            r == self.add_scalar_spec(s),
    {
        Vec2 { x: self.x.add(s), y: self.y.add(s) }
    }

    /// Both coordinates minus `s`.
    pub open spec fn sub_scalar_spec(self, s: S) -> Self {
        Vec2 { x: self.x.sub_spec(s), y: self.y.sub_spec(s) }
    }

    /// Both coordinates minus `s`.
    pub fn sub_scalar(self, s: S) -> (r: Self)
        ensures
            r == self.sub_scalar_spec(s),
    {
        Vec2 { x: self.x.sub(s), y: self.y.sub(s) }
    }

    /// Both coordinates times `s`.
    pub open spec fn mul_scalar_spec(self, s: S) -> Self {
        Vec2 { x: self.x.mul_spec(s), y: self.y.mul_spec(s) }
    }

    /// Both coordinates times `s`.
    pub fn mul_scalar(self, s: S) -> (r: Self)
        ensures
            r == self.mul_scalar_spec(s),
    {
        Vec2 { x: self.x.mul(s), y: self.y.mul(s) }
    }

    /// Both coordinates divided by `s`.
    pub open spec fn div_scalar_spec(self, s: S) -> Self {
        Vec2 { x: self.x.div_spec(s), y: self.y.div_spec(s) }
    }

    /// Both coordinates divided by `s`.
    pub fn div_scalar(self, s: S) -> (r: Self)
        ensures
            r == self.div_scalar_spec(s),
    {
        Vec2 { x: self.x.div(s), y: self.y.div(s) }
    }

    /// `s` minus each coordinate.
    pub open spec fn sub_from_scalar_spec(self, s: S) -> Self {
        Vec2 { x: s.sub_spec(self.x), y: s.sub_spec(self.y) }
    }

    /// `s` minus each coordinate.
    pub fn sub_from_scalar(self, s: S) -> (r: Self)
        ensures
            r == self.sub_from_scalar_spec(s),
    {
        Vec2 { x: s.sub(self.x), y: s.sub(self.y) }
    }

    /// `s` divided by each coordinate.
    pub open spec fn div_into_scalar_spec(self, s: S) -> Self {
        Vec2 { x: s.div_spec(self.x), y: s.div_spec(self.y) }
    }

    /// `s` divided by each coordinate.
    pub fn div_into_scalar(self, s: S) -> (r: Self)
        ensures
            r == self.div_into_scalar_spec(s),
    {
        Vec2 { x: s.div(self.x), y: s.div(self.y) }
    }

    /// The dot product `x * x' + y * y'`.
    pub open spec fn dot_spec(self, rhs: Self) -> S {
        self.x.mul_spec(rhs.x).add_spec(self.y.mul_spec(rhs.y))
    }

    /// The dot product `x * x' + y * y'`.
    pub fn dot(self, rhs: Self) -> (r: S)
        ensures
            r == self.dot_spec(rhs),
    {
        self.x.mul(rhs.x).add(self.y.mul(rhs.y))
    }

    /// The square of the length.
    pub fn length2(self) -> (r: S)
        ensures
            r == self.dot_spec(self),
    {
        self.dot(self)
    }

    /// The length: the square root of `x * x + y * y`.
    pub open spec fn length_spec(self) -> S {
        self.dot_spec(self).sqrt_spec()
    }

    /// The length: the square root of `x * x + y * y`.
    pub fn length(self) -> (r: S)
        ensures
            r == self.length_spec(),
    {
        self.dot(self).sqrt()
    }

    /// The vector divided by its length.
    pub fn normalize(self) -> (r: Self)
        ensures
            r == self.div_scalar_spec(self.length_spec()),
    {
        self.div_scalar(self.length())
    }

    /// Whether both coordinates are within `epsilon` of those of `other`.
    pub open spec fn approx_eq_within_spec(self, other: Self, epsilon: S) -> bool {
        approx_eq_within_spec(self.x, other.x, epsilon) && approx_eq_within_spec(
            self.y,
            other.y,
            epsilon,
        )
    }

    /// Whether both coordinates are within `epsilon` of those of `other`.
    pub fn approx_eq_within(&self, other: &Self, epsilon: S) -> (r: bool)
        ensures
            r == self.approx_eq_within_spec(*other, epsilon),
    {
        approx_eq_within(self.x, other.x, epsilon) && approx_eq_within(self.y, other.y, epsilon)
    }

    /// Whether both coordinates are within the shared tolerance of those of
    /// `other`.
    pub fn approx_eq(&self, other: &Self) -> (r: bool)
        ensures
            r == self.approx_eq_within_spec(*other, epsilon_spec::<S>()),
    {
        self.approx_eq_within(other, epsilon::<S>())
    }
}

impl<S: Scalar> Point<S> {
    /// The point with the given coordinates.
    pub fn new(x: S, y: S) -> (r: Self)
        ensures
            r == (Point { x, y }),
    {
        Point { x, y }
    }

    /// The vector from the origin to the point.
    pub fn vec(self) -> (r: Vec2<S>)
        ensures
            r == (Vec2 { x: self.x, y: self.y }),
    {
        Vec2 { x: self.x, y: self.y }
    }

    /// The vector from `rhs` to `self`.
    pub open spec fn sub_spec(self, rhs: Self) -> Vec2<S> {
        Vec2 { x: self.x.sub_spec(rhs.x), y: self.y.sub_spec(rhs.y) }
    }

    /// The vector from `rhs` to `self`.
    pub fn sub(self, rhs: Self) -> (r: Vec2<S>)
        ensures
            r == self.sub_spec(rhs),
    {
        Vec2 { x: self.x.sub(rhs.x), y: self.y.sub(rhs.y) }
    }

    /// The point moved by `rhs`.
    pub open spec fn add_spec(self, rhs: Vec2<S>) -> Self {
        Point { x: self.x.add_spec(rhs.x), y: self.y.add_spec(rhs.y) }
    }

    /// The point moved by `rhs`.
    pub fn add(self, rhs: Vec2<S>) -> (r: Self)
        ensures
            r == self.add_spec(rhs),
    {
        Point { x: self.x.add(rhs.x), y: self.y.add(rhs.y) }
    }

    /// The point at `t` on the way from `self` to `rhs`.
    pub open spec fn lerp_spec(self, t: S, rhs: Self) -> Self {
        Point { x: lerp_spec(self.x, t, rhs.x), y: lerp_spec(self.y, t, rhs.y) }
    }

    /// The point at `t` on the way from `self` to `rhs`.
    pub fn lerp(&self, t: S, rhs: &Self) -> (r: Self)
        ensures
            r == self.lerp_spec(t, *rhs),
    {
        Point { x: lerp(self.x, t, rhs.x), y: lerp(self.y, t, rhs.y) }
    }

    /// Whether both coordinates are within `epsilon` of those of `other`.
    pub open spec fn approx_eq_within_spec(self, other: Self, epsilon: S) -> bool {
        approx_eq_within_spec(self.x, other.x, epsilon) && approx_eq_within_spec(
            self.y,
            other.y,
            epsilon,
        )
    }

    /// Whether both coordinates are within `epsilon` of those of `other`.
    pub fn approx_eq_within(&self, other: &Self, epsilon: S) -> (r: bool)
        ensures
            r == self.approx_eq_within_spec(*other, epsilon),
    {
        approx_eq_within(self.x, other.x, epsilon) && approx_eq_within(self.y, other.y, epsilon)
    }

    /// Whether both coordinates are within the shared tolerance of those of
    /// `other`.
    pub fn approx_eq(&self, other: &Self) -> (r: bool)
        ensures
            r == self.approx_eq_within_spec(*other, epsilon_spec::<S>()),
    {
        self.approx_eq_within(other, epsilon::<S>())
    }
}

} // verus!
