//! Vectors in space.
use crate::float4::Float4;
use crate::scalar::{epsilon, epsilon_spec, zero, zero_spec, Scalar};
use vstd::prelude::*;

verus! {

/// A vector in 3D space. Its arithmetic is that of a [`Float4`] whose first
/// three lanes hold the coordinates and whose fourth lane is zero.
#[derive(Clone, Copy, Debug, PartialEq)]
pub struct Vec3<S: Scalar> {
    pub x: S,
    pub y: S,
    pub z: S,
}

impl<S: Scalar> Vec3<S> {
    /// The vector with the given coordinates.
    pub fn new(x: S, y: S, z: S) -> (r: Self)
        ensures
            r == (Vec3 { x, y, z }),
    {
        Vec3 { x, y, z }
    }

    /// The coordinates in the first three lanes of a vector of four, with
    /// zero in the fourth.
    pub open spec fn packed_spec(self) -> Float4<S> {
        Float4 { a: self.x, b: self.y, c: self.z, d: zero_spec() }
    }

    /// The coordinates in the first three lanes of a vector of four, with
    /// zero in the fourth.
    pub fn packed(self) -> (r: Float4<S>)
        ensures
            r == self.packed_spec(),
    {
        Float4::new(self.x, self.y, self.z, zero())
    }

    /// The first three lanes of `v`.
    pub open spec fn unpacked_spec(v: Float4<S>) -> Self {
        Vec3 { x: v.a, y: v.b, z: v.c }
    }

    /// The first three lanes of `v`.
    pub fn unpacked(v: Float4<S>) -> (r: Self)
        ensures
            r == Self::unpacked_spec(v),
    {
        Vec3 { x: v.a, y: v.b, z: v.c }
    }

    /// Four dot products at once, one of each pair.
    pub fn dot4(a: (Self, Self), b: (Self, Self), c: (Self, Self), d: (Self, Self)) -> (r: Float4<S>)
        ensures
            r == Float4::dot4_spec(
                a.0.packed_spec(),
                a.1.packed_spec(),
                b.0.packed_spec(),
                b.1.packed_spec(),
                c.0.packed_spec(),
                c.1.packed_spec(),
                d.0.packed_spec(),
                d.1.packed_spec(),
            ),
    {
        Float4::dot4(
            a.0.packed(),
            a.1.packed(),
            b.0.packed(),
            b.1.packed(),
            c.0.packed(),
            c.1.packed(),
            d.0.packed(),
            d.1.packed(),
        )
    }

    /// The x coordinate.
    pub fn x(self) -> (r: S)
        ensures
            r == self.x,
    {
        self.x
    }

    /// The y coordinate.
    pub fn y(self) -> (r: S)
        ensures
            r == self.y,
    {
        self.y
    }

    /// The z coordinate.
    pub fn z(self) -> (r: S)
        ensures
            r == self.z,
    {
        self.z
    }

    /// The three coordinates.
    pub fn xyz(self) -> (r: (S, S, S))
        ensures
            r == (self.x, self.y, self.z),
    {
        (self.x, self.y, self.z)
    }

    /// The dot product.
    pub open spec fn dot_spec(self, rhs: Self) -> S {
        self.packed_spec().dot_spec(rhs.packed_spec())
    }

    /// The dot product.
    pub fn dot(self, rhs: Self) -> (r: S)
        ensures
            r == self.dot_spec(rhs),
    {
        self.packed().dot(rhs.packed())
    }

    /// The square of the length.
    pub fn length2(self) -> (r: S)
        ensures
            r == self.dot_spec(self),
    {
        self.dot(self)
    }

    /// The length: the square root of the dot product with itself.
    pub open spec fn length_spec(self) -> S {
        self.dot_spec(self).sqrt_spec()
    }

    /// The length: the square root of the dot product with itself.
    pub fn length(self) -> (r: S)
        ensures
            r == self.length_spec(),
    {
        self.length2().sqrt()
    }

    /// The vector divided by its length.
    pub fn normalize(self) -> (r: Self)
        ensures
            r == self.div_scalar_spec(self.length_spec()),
    {
        self.div_scalar(self.length())
    }

    /// The cross product.
    pub fn cross(self, rhs: Self) -> (r: Self)
        ensures
            r == Self::unpacked_spec(self.packed_spec().cross_spec(rhs.packed_spec())),
    {
        Self::unpacked(self.packed().cross(rhs.packed()))
    }

    /// Every coordinate subtracted from zero.
    pub fn neg(self) -> (r: Self)
        ensures
            r == Self::unpacked_spec(self.packed_spec().neg_spec()),
    {
        Self::unpacked(self.packed().neg())
    }

    /// The sum of the two vectors.
    pub fn add(self, rhs: Self) -> (r: Self)
        ensures
            r == Self::unpacked_spec(self.packed_spec().add_spec(rhs.packed_spec())),
    {
        Self::unpacked(self.packed().add(rhs.packed()))
    }

    /// The difference of the two vectors.
    pub fn sub(self, rhs: Self) -> (r: Self)
        ensures
            r == Self::unpacked_spec(self.packed_spec().sub_spec(rhs.packed_spec())),
    {
        Self::unpacked(self.packed().sub(rhs.packed()))
    }

    /// Every coordinate plus `s`.
    pub open spec fn add_scalar_spec(self, s: S) -> Self {
        Vec3 { x: self.x.add_spec(s), y: self.y.add_spec(s), z: self.z.add_spec(s) }
    }

    /// Every coordinate plus `s`.
    pub fn add_scalar(self, s: S) -> (r: Self)
        ensures
            r == self.add_scalar_spec(s),
    {
        Vec3 { x: self.x.add(s), y: self.y.add(s), z: self.z.add(s) }
    }

    /// Every coordinate minus `s`.
    pub open spec fn sub_scalar_spec(self, s: S) -> Self {
        Vec3 { x: self.x.sub_spec(s), y: self.y.sub_spec(s), z: self.z.sub_spec(s) }
    }

    /// Every coordinate minus `s`.
    pub fn sub_scalar(self, s: S) -> (r: Self)
        ensures
            r == self.sub_scalar_spec(s),
    {
        Vec3 { x: self.x.sub(s), y: self.y.sub(s), z: self.z.sub(s) }
    }

    /// Every coordinate times `s`.
    pub open spec fn mul_scalar_spec(self, s: S) -> Self {
        Vec3 { x: self.x.mul_spec(s), y: self.y.mul_spec(s), z: self.z.mul_spec(s) }
    }

    /// Every coordinate times `s`.
    pub fn mul_scalar(self, s: S) -> (r: Self)
        ensures
            r == self.mul_scalar_spec(s),
    {
        Vec3 { x: self.x.mul(s), y: self.y.mul(s), z: self.z.mul(s) }
    }

    /// Every coordinate divided by `s`.
    pub open spec fn div_scalar_spec(self, s: S) -> Self {
        Vec3 { x: self.x.div_spec(s), y: self.y.div_spec(s), z: self.z.div_spec(s) }
    }

    /// Every coordinate divided by `s`.
    pub fn div_scalar(self, s: S) -> (r: Self)
        ensures
            r == self.div_scalar_spec(s),
    {
        Vec3 { x: self.x.div(s), y: self.y.div(s), z: self.z.div(s) }
    }

    /// `s` plus every coordinate.
    pub open spec fn add_to_scalar_spec(self, s: S) -> Self {
        Vec3 { x: s.add_spec(self.x), y: s.add_spec(self.y), z: s.add_spec(self.z) }
    }

    /// `s` plus every coordinate.
    pub fn add_to_scalar(self, s: S) -> (r: Self)
        ensures
            r == self.add_to_scalar_spec(s),
    {
        Vec3 { x: s.add(self.x), y: s.add(self.y), z: s.add(self.z) }
    }

    /// `s` minus every coordinate.
    pub open spec fn sub_from_scalar_spec(self, s: S) -> Self {
        Vec3 { x: s.sub_spec(self.x), y: s.sub_spec(self.y), z: s.sub_spec(self.z) }
    }

    /// `s` minus every coordinate.
    pub fn sub_from_scalar(self, s: S) -> (r: Self)
        ensures
            r == self.sub_from_scalar_spec(s),
    {
        Vec3 { x: s.sub(self.x), y: s.sub(self.y), z: s.sub(self.z) }
    }

    /// `s` times every coordinate.
    pub open spec fn mul_by_scalar_spec(self, s: S) -> Self {
        Vec3 { x: s.mul_spec(self.x), y: s.mul_spec(self.y), z: s.mul_spec(self.z) }
    }

    /// `s` times every coordinate.
    pub fn mul_by_scalar(self, s: S) -> (r: Self)
        ensures
            r == self.mul_by_scalar_spec(s),
    {
        Vec3 { x: s.mul(self.x), y: s.mul(self.y), z: s.mul(self.z) }
    }

    /// `s` divided by every coordinate.
    pub open spec fn div_into_scalar_spec(self, s: S) -> Self {
        Vec3 { x: s.div_spec(self.x), y: s.div_spec(self.y), z: s.div_spec(self.z) }
    }

    /// `s` divided by every coordinate.
    pub fn div_into_scalar(self, s: S) -> (r: Self)
        ensures
            r == self.div_into_scalar_spec(s),
    {
        Vec3 { x: s.div(self.x), y: s.div(self.y), z: s.div(self.z) }
    }

    /// Whether the coordinates are within `epsilon` of those of `other`.
    pub open spec fn approx_eq_within_spec(self, other: Self, epsilon: S) -> bool {
        let r = self.packed_spec().sub_spec(other.packed_spec()).abs_spec().less_or_equal_spec(
            Float4::splat_spec(epsilon),
        );
        r.0 && r.1 && r.2
    }

    /// Whether the coordinates are within `epsilon` of those of `other`.
    pub fn approx_eq_within(&self, other: &Self, epsilon: S) -> (r: bool)
        ensures
            r == self.approx_eq_within_spec(*other, epsilon),
    {
        let (a, b, c, _) = self.packed().sub(other.packed()).abs().less_or_equal(
            Float4::splat(epsilon),
        );
        a && b && c
    }

    /// Whether the coordinates are within the shared tolerance of those of
    /// `other`.
    pub fn approx_eq(&self, other: &Self) -> (r: bool)
        ensures
            r == self.approx_eq_within_spec(*other, epsilon_spec::<S>()),
    {
        self.approx_eq_within(other, epsilon::<S>())
    }
}

} // verus!
