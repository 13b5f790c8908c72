//! Four scalars side by side, with lane-wise arithmetic, comparisons, lane
//! permutations and horizontal reductions.
use crate::scalar::{max, max_spec, min, min_spec, one, one_spec, Scalar};
use vstd::prelude::*;

verus! {

/// A vector of four lanes `a`, `b`, `c`, `d`.
#[derive(Clone, Copy, Debug, PartialEq)]
pub struct Float4<S: Scalar> {
    pub a: S,
    pub b: S,
    pub c: S,
    pub d: S,
}

/// The older name of [`Float4`].
pub type Vec4<S> = Float4<S>;

impl<S: Scalar> Float4<S> {
    /// Packs four scalars into a vector.
    pub fn new(a: S, b: S, c: S, d: S) -> (r: Self)
        ensures
            r == (Float4 { a, b, c, d }),
    {
        Float4 { a, b, c, d }
    }

    /// Loads a 4-element array into a vector.
    pub fn from_array(arr: &[S; 4]) -> (r: Self)
        ensures
            r == Self::from_array_spec(*arr),
    {
        Float4 { a: arr[0], b: arr[1], c: arr[2], d: arr[3] }
    }

    /// Loads a 4-element array into a vector.
    pub open spec fn from_array_spec(arr: [S; 4]) -> Self {
        Float4 { a: arr[0], b: arr[1], c: arr[2], d: arr[3] }
    }

    /// Repeats `v` in every lane.
    pub fn splat(v: S) -> (r: Self)
        ensures
            r == Self::splat_spec(v),
    {
        Float4 { a: v, b: v, c: v, d: v }
    }

    /// Repeats `v` in every lane.
    pub open spec fn splat_spec(v: S) -> Self {
        Float4 { a: v, b: v, c: v, d: v }
    }

    /// Unpacks the vector into a tuple.
    pub fn unpack(&self) -> (r: (S, S, S, S))
        ensures
            r == (self.a, self.b, self.c, self.d),
    {
        (self.a, self.b, self.c, self.d)
    }

    /// The lane `a`.
    pub fn a(&self) -> (r: S)
        ensures
            r == self.a,
    {
        self.a
    }

    /// The lane `b`.
    pub fn b(&self) -> (r: S)
        ensures
            r == self.b,
    {
        self.b
    }

    /// The lane `c`.
    pub fn c(&self) -> (r: S)
        ensures
            r == self.c,
    {
        self.c
    }

    /// The lane `d`.
    pub fn d(&self) -> (r: S)
        ensures
            r == self.d,
    {
        self.d
    }

    /// The lane `a`.
    pub fn x(&self) -> (r: S)
        ensures
            r == self.a,
    {
        self.a
    }

    /// The lane `b`.
    pub fn y(&self) -> (r: S)
        ensures
            r == self.b,
    {
        self.b
    }

    /// The lane `c`.
    pub fn z(&self) -> (r: S)
        ensures
            r == self.c,
    {
        self.c
    }

    /// The lane `d`.
    pub fn w(&self) -> (r: S)
        ensures
            r == self.d,
    {
        self.d
    }

    /// The lanes in the order `c`, `d`, `a`, `b`.
    pub fn zwxy(&self) -> (r: Self)
        ensures
            r == (Float4 { a: self.c, b: self.d, c: self.a, d: self.b }),
    {
        Float4 { a: self.c, b: self.d, c: self.a, d: self.b }
    }

    /// The lanes in the order `b`, `a`, `d`, `c`.
    pub fn yxwz(&self) -> (r: Self)
        ensures
            r == (Float4 { a: self.b, b: self.a, c: self.d, d: self.c }),
    {
        Float4 { a: self.b, b: self.a, c: self.d, d: self.c }
    }

    /// The lanes in reverse order.
    pub fn reverse(&self) -> (r: Self)
        ensures
            r == (Float4 { a: self.d, b: self.c, c: self.b, d: self.a }),
    {
        Float4 { a: self.d, b: self.c, c: self.b, d: self.a }
    }

    /// Swaps the high half `c`, `d` with the low half `a`, `b`.
    pub fn swap_high_low(&self) -> (r: Self)
        ensures
            r == (Float4 { a: self.c, b: self.d, c: self.a, d: self.b }),
    {
        Float4 { a: self.c, b: self.d, c: self.a, d: self.b }
    }

    /// The high half of `self` followed by the low half of `rhs`.
    pub fn combine_high_low(&self, rhs: Self) -> (r: Self)
        ensures
            r == (Float4 { a: self.c, b: self.d, c: rhs.a, d: rhs.b }),
    {
        Float4 { a: self.c, b: self.d, c: rhs.a, d: rhs.b }
    }

    /// Moves every lane `amount` places to the right, the lanes that leave at
    /// the end coming back in at the front.
    pub open spec fn rotate_right_spec(self, amount: usize) -> Self {
        if amount % 4 == 0 {
            self
        } else if amount % 4 == 1 {
            Float4 { a: self.d, b: self.a, c: self.b, d: self.c }
        } else if amount % 4 == 2 {
            Float4 { a: self.c, b: self.d, c: self.a, d: self.b }
        } else {
            Float4 { a: self.b, b: self.c, c: self.d, d: self.a }
        }
    }

    /// Moves every lane `amount` places to the right, the lanes that leave at
    /// the end coming back in at the front.
    pub fn rotate_right(&self, amount: usize) -> (r: Self)
        ensures
            r == self.rotate_right_spec(amount),
    {
        let k: usize = amount % 4;
        if k == 0 {
            *self
        } else if k == 1 {
            Float4 { a: self.d, b: self.a, c: self.b, d: self.c }
        } else if k == 2 {
            Float4 { a: self.c, b: self.d, c: self.a, d: self.b }
        } else {
            Float4 { a: self.b, b: self.c, c: self.d, d: self.a }
        }
    }

    /// Turns four rows into their four columns.
    pub fn transpose4x4(a: Self, b: Self, c: Self, d: Self) -> (r: (Self, Self, Self, Self))
        ensures
            r == Self::transpose4x4_spec(a, b, c, d),
    {
        (
            Float4 { a: a.a, b: b.a, c: c.a, d: d.a },
            Float4 { a: a.b, b: b.b, c: c.b, d: d.b },
            Float4 { a: a.c, b: b.c, c: c.c, d: d.c },
            Float4 { a: a.d, b: b.d, c: c.d, d: d.d },
        )
    }

    /// Turns four rows into their four columns.
    pub open spec fn transpose4x4_spec(a: Self, b: Self, c: Self, d: Self) -> (Self, Self, Self, Self) {
        (
            Float4 { a: a.a, b: b.a, c: c.a, d: d.a },
            Float4 { a: a.b, b: b.b, c: c.b, d: d.b },
            Float4 { a: a.c, b: b.c, c: c.c, d: d.c },
            Float4 { a: a.d, b: b.d, c: c.d, d: d.d },
        )
    }

    /// The absolute value of every lane.
    pub open spec fn abs_spec(self) -> Self {
        Float4 { a: self.a.abs_spec(), b: self.b.abs_spec(), c: self.c.abs_spec(), d: self.d.abs_spec() }
    }

    /// The absolute value of every lane.
    pub fn abs(&self) -> (r: Self)
        ensures
            r == self.abs_spec(),
    {
        Float4 { a: self.a.abs(), b: self.b.abs(), c: self.c.abs(), d: self.d.abs() }
    }

    /// The square root of every lane.
    pub open spec fn sqrt_spec(self) -> Self {
        Float4 { a: self.a.sqrt_spec(), b: self.b.sqrt_spec(), c: self.c.sqrt_spec(), d: self.d.sqrt_spec() }
    }

    /// The square root of every lane.
    pub fn sqrt(&self) -> (r: Self)
        ensures
            r == self.sqrt_spec(),
    {
        Float4 { a: self.a.sqrt(), b: self.b.sqrt(), c: self.c.sqrt(), d: self.d.sqrt() }
    }

    /// The square root of every lane.
    pub fn sqrt_elements(&self) -> (r: Self)
        ensures
            r == self.sqrt_spec(),
    {
        Float4 { a: self.a.sqrt(), b: self.b.sqrt(), c: self.c.sqrt(), d: self.d.sqrt() }
    }

    /// Every lane subtracted from zero.
    pub open spec fn neg_spec(self) -> Self {
        Self::splat_spec(S::from_int_spec(0)).sub_spec(self)
    }

    /// Every lane subtracted from zero.
    pub fn neg(self) -> (r: Self)
        ensures
            r == self.neg_spec(),
    {
        Self::splat(S::from_int(0)).sub(self)
    }

    /// The lane-wise sum.
    pub open spec fn add_spec(self, rhs: Self) -> Self {
        Float4 { a: self.a.add_spec(rhs.a), b: self.b.add_spec(rhs.b), c: self.c.add_spec(rhs.c), d: self.d.add_spec(rhs.d) }
    }

    /// The lane-wise sum.
    pub fn add(self, rhs: Self) -> (r: Self)
        ensures
            r == self.add_spec(rhs),
    {
        Float4 { a: self.a.add(rhs.a), b: self.b.add(rhs.b), c: self.c.add(rhs.c), d: self.d.add(rhs.d) }
    }

    /// The lane-wise difference.
    pub open spec fn sub_spec(self, rhs: Self) -> Self {
        Float4 { a: self.a.sub_spec(rhs.a), b: self.b.sub_spec(rhs.b), c: self.c.sub_spec(rhs.c), d: self.d.sub_spec(rhs.d) }
    }

    /// The lane-wise difference.
    pub fn sub(self, rhs: Self) -> (r: Self)
        ensures
            r == self.sub_spec(rhs),
    {
        Float4 { a: self.a.sub(rhs.a), b: self.b.sub(rhs.b), c: self.c.sub(rhs.c), d: self.d.sub(rhs.d) }
    }

    /// The lane-wise product.
    pub open spec fn mul_spec(self, rhs: Self) -> Self {
        Float4 { a: self.a.mul_spec(rhs.a), b: self.b.mul_spec(rhs.b), c: self.c.mul_spec(rhs.c), d: self.d.mul_spec(rhs.d) }
    }

    /// The lane-wise product.
    pub fn mul(self, rhs: Self) -> (r: Self)
        ensures
            r == self.mul_spec(rhs),
    {
        Float4 { a: self.a.mul(rhs.a), b: self.b.mul(rhs.b), c: self.c.mul(rhs.c), d: self.d.mul(rhs.d) }
    }

    /// The lane-wise product.
    pub fn mul_elements(&self, rhs: &Self) -> (r: Self)
        ensures
            r == self.mul_spec(*rhs),
    {
        Float4 { a: self.a.mul(rhs.a), b: self.b.mul(rhs.b), c: self.c.mul(rhs.c), d: self.d.mul(rhs.d) }
    }

    /// The lane-wise quotient.
    pub open spec fn div_spec(self, rhs: Self) -> Self {
        Float4 { a: self.a.div_spec(rhs.a), b: self.b.div_spec(rhs.b), c: self.c.div_spec(rhs.c), d: self.d.div_spec(rhs.d) }
    }

    /// The lane-wise quotient.
    pub fn div(self, rhs: Self) -> (r: Self)
        ensures
            r == self.div_spec(rhs),
    {
        Float4 { a: self.a.div(rhs.a), b: self.b.div(rhs.b), c: self.c.div(rhs.c), d: self.d.div(rhs.d) }
    }

    /// The lane-wise quotient.
    pub fn div_elements(&self, rhs: &Self) -> (r: Self)
        ensures
            r == self.div_spec(*rhs),
    {
        Float4 { a: self.a.div(rhs.a), b: self.b.div(rhs.b), c: self.c.div(rhs.c), d: self.d.div(rhs.d) }
    }

    /// The smaller scalar of every pair of lanes.
    pub open spec fn min_spec(self, rhs: Self) -> Self {
        Float4 { a: min_spec(self.a, rhs.a), b: min_spec(self.b, rhs.b), c: min_spec(self.c, rhs.c), d: min_spec(self.d, rhs.d) }
    }

    /// The smaller scalar of every pair of lanes.
    pub fn min(&self, rhs: Self) -> (r: Self)
        ensures
            r == self.min_spec(rhs),
    {
        Float4 { a: min(self.a, rhs.a), b: min(self.b, rhs.b), c: min(self.c, rhs.c), d: min(self.d, rhs.d) }
    }

    /// The larger scalar of every pair of lanes.
    pub open spec fn max_spec(self, rhs: Self) -> Self {
        Float4 { a: max_spec(self.a, rhs.a), b: max_spec(self.b, rhs.b), c: max_spec(self.c, rhs.c), d: max_spec(self.d, rhs.d) }
    }

    /// The larger scalar of every pair of lanes.
    pub fn max(&self, rhs: Self) -> (r: Self)
        ensures
            r == self.max_spec(rhs),
    {
        Float4 { a: max(self.a, rhs.a), b: max(self.b, rhs.b), c: max(self.c, rhs.c), d: max(self.d, rhs.d) }
    }

    /// For every pair of lanes, whether the left scalar is strictly below the right.
    pub open spec fn less_than_spec(self, rhs: Self) -> (bool, bool, bool, bool) {
        (self.a.lt_spec(rhs.a), self.b.lt_spec(rhs.b), self.c.lt_spec(rhs.c), self.d.lt_spec(rhs.d))
    }

    /// For every pair of lanes, whether the left scalar is strictly below the right.
    pub fn less_than(&self, rhs: Self) -> (r: (bool, bool, bool, bool))
        ensures
            r == self.less_than_spec(rhs),
    {
        (self.a.lt(rhs.a), self.b.lt(rhs.b), self.c.lt(rhs.c), self.d.lt(rhs.d))
    }

    /// For every pair of lanes, whether the left scalar is strictly below the right.
    pub fn lt_elements(&self, rhs: &Self) -> (r: (bool, bool, bool, bool))
        ensures
            r == self.less_than_spec(*rhs),
    {
        (self.a.lt(rhs.a), self.b.lt(rhs.b), self.c.lt(rhs.c), self.d.lt(rhs.d))
    }

    /// For every pair of lanes, whether the left scalar is below or equal to the right.
    pub open spec fn less_or_equal_spec(self, rhs: Self) -> (bool, bool, bool, bool) {
        (self.a.le_spec(rhs.a), self.b.le_spec(rhs.b), self.c.le_spec(rhs.c), self.d.le_spec(rhs.d))
    }

    /// For every pair of lanes, whether the left scalar is below or equal to the right.
    pub fn less_or_equal(&self, rhs: Self) -> (r: (bool, bool, bool, bool))
        ensures
            r == self.less_or_equal_spec(rhs),
    {
        (self.a.le(rhs.a), self.b.le(rhs.b), self.c.le(rhs.c), self.d.le(rhs.d))
    }

    /// For every pair of lanes, whether the two scalars compare equal.
    pub open spec fn eq_elements_spec(self, rhs: Self) -> (bool, bool, bool, bool) {
        (self.a.eq_spec(rhs.a), self.b.eq_spec(rhs.b), self.c.eq_spec(rhs.c), self.d.eq_spec(rhs.d))
    }

    /// For every pair of lanes, whether the two scalars compare equal.
    pub fn eq_elements(&self, rhs: &Self) -> (r: (bool, bool, bool, bool))
        ensures
            r == self.eq_elements_spec(*rhs),
    {
        (self.a.eq(rhs.a), self.b.eq(rhs.b), self.c.eq(rhs.c), self.d.eq(rhs.d))
    }

    /// Every lane multiplied by `s`, with `s` on the left.
    pub open spec fn scale_spec(self, s: S) -> Self {
        Self::splat_spec(s).mul_spec(self)
    }

    /// Every lane multiplied by `s`, with `s` on the left.
    pub fn scale(self, s: S) -> (r: Self)
        ensures
            r == self.scale_spec(s),
    {
        Self::splat(s).mul(self)
    }

    /// Lane-wise linear interpolation: `(1 - t) * self + t * rhs`.
    pub open spec fn lerp_spec(self, t: S, rhs: Self) -> Self {
        self.scale_spec(one_spec::<S>().sub_spec(t)).add_spec(rhs.scale_spec(t))
    }

    /// Lane-wise linear interpolation: `(1 - t) * self + t * rhs`.
    pub fn lerp(&self, t: S, rhs: &Self) -> (r: Self)
        ensures
            r == self.lerp_spec(t, *rhs),
    {
        self.scale(one::<S>().sub(t)).add(rhs.scale(t))
    }

    /// The dot product: the lane-wise products summed from `a` to `d`.
    pub open spec fn dot_spec(self, rhs: Self) -> S {
        let p = self.mul_spec(rhs);
        p.a.add_spec(p.b).add_spec(p.c).add_spec(p.d)
    }

    /// The dot product: the lane-wise products summed from `a` to `d`.
    pub fn dot(&self, rhs: Self) -> (r: S)
        ensures
            r == self.dot_spec(rhs),
    {
        let p = self.mul(rhs);
        p.a.add(p.b).add(p.c).add(p.d)
    }

    /// The cross product of the first three lanes; the fourth lane holds
    /// `d * d' - d' * d`.
    pub open spec fn cross_spec(self, rhs: Self) -> Self {
        Float4 {
            a: self.b.mul_spec(rhs.c).sub_spec(rhs.b.mul_spec(self.c)),
            b: self.c.mul_spec(rhs.a).sub_spec(rhs.c.mul_spec(self.a)),
            c: self.a.mul_spec(rhs.b).sub_spec(rhs.a.mul_spec(self.b)),
            d: self.d.mul_spec(rhs.d).sub_spec(rhs.d.mul_spec(self.d)),
        }
    }

    /// The cross product of the first three lanes; the fourth lane holds
    /// `d * d' - d' * d`.
    pub fn cross(&self, rhs: Self) -> (r: Self)
        ensures
            r == self.cross_spec(rhs),
    {
        Float4 {
            a: self.b.mul(rhs.c).sub(rhs.b.mul(self.c)),
            b: self.c.mul(rhs.a).sub(rhs.c.mul(self.a)),
            c: self.a.mul(rhs.b).sub(rhs.a.mul(self.b)),
            d: self.d.mul(rhs.d).sub(rhs.d.mul(self.d)),
        }
    }

    /// The sum of the four lanes, taken as `(c + a) + (d + b)`.
    pub open spec fn horizontal_sum_spec(self) -> S {
        self.c.add_spec(self.a).add_spec(self.d.add_spec(self.b))
    }

    /// The horizontal sums of two vectors.
    pub fn horizontal_sum2(a: Self, b: Self) -> (r: (S, S))
        ensures
            r == (a.horizontal_sum_spec(), b.horizontal_sum_spec()),
    {
        (a.c.add(a.a).add(a.d.add(a.b)), b.c.add(b.a).add(b.d.add(b.b)))
    }

    /// The horizontal sums of two vectors.
    pub fn hsum2(a: Self, b: Self) -> (r: (S, S))
        ensures
            r == (a.horizontal_sum_spec(), b.horizontal_sum_spec()),
    {
        Self::horizontal_sum2(a, b)
    }

    /// Lane `i` of the result is the sum of vector `i`, taken as `(a + b) + (c + d)`.
    pub open spec fn horizontal_sum4_spec(a: Self, b: Self, c: Self, d: Self) -> Self {
        Float4 {
            a: a.a.add_spec(a.b).add_spec(a.c.add_spec(a.d)),
            b: b.a.add_spec(b.b).add_spec(b.c.add_spec(b.d)),
            c: c.a.add_spec(c.b).add_spec(c.c.add_spec(c.d)),
            d: d.a.add_spec(d.b).add_spec(d.c.add_spec(d.d)),
        }
    }

    /// Lane `i` of the result is the sum of vector `i`, taken as `(a + b) + (c + d)`.
    pub fn horizontal_sum4(a: Self, b: Self, c: Self, d: Self) -> (r: Self)
        ensures
            r == Self::horizontal_sum4_spec(a, b, c, d),
    {
        Float4 {
            a: a.a.add(a.b).add(a.c.add(a.d)),
            b: b.a.add(b.b).add(b.c.add(b.d)),
            c: c.a.add(c.b).add(c.c.add(c.d)),
            d: d.a.add(d.b).add(d.c.add(d.d)),
        }
    }

    /// Lane `i` of the result is the smallest lane of vector `i`, found from the last lane to the first.
    pub open spec fn horizontal_min4_spec(a: Self, b: Self, c: Self, d: Self) -> Self {
        Float4 {
            a: min_spec(a.a, min_spec(a.b, min_spec(a.c, a.d))),
            b: min_spec(b.a, min_spec(b.b, min_spec(b.c, b.d))),
            c: min_spec(c.a, min_spec(c.b, min_spec(c.c, c.d))),
            d: min_spec(d.a, min_spec(d.b, min_spec(d.c, d.d))),
        }
    }

    /// Lane `i` of the result is the smallest lane of vector `i`, found from the last lane to the first.
    pub fn horizontal_min4(a: Self, b: Self, c: Self, d: Self) -> (r: Self)
        ensures
            r == Self::horizontal_min4_spec(a, b, c, d),
    {
        Float4 {
            a: min(a.a, min(a.b, min(a.c, a.d))),
            b: min(b.a, min(b.b, min(b.c, b.d))),
            c: min(c.a, min(c.b, min(c.c, c.d))),
            d: min(d.a, min(d.b, min(d.c, d.d))),
        }
    }

    /// Lane `i` of the result is the largest lane of vector `i`, found from the last lane to the first.
    pub open spec fn horizontal_max4_spec(a: Self, b: Self, c: Self, d: Self) -> Self {
        Float4 {
            a: max_spec(a.a, max_spec(a.b, max_spec(a.c, a.d))),
            b: max_spec(b.a, max_spec(b.b, max_spec(b.c, b.d))),
            c: max_spec(c.a, max_spec(c.b, max_spec(c.c, c.d))),
            d: max_spec(d.a, max_spec(d.b, max_spec(d.c, d.d))),
        }
    }

    /// Lane `i` of the result is the largest lane of vector `i`, found from the last lane to the first.
    pub fn horizontal_max4(a: Self, b: Self, c: Self, d: Self) -> (r: Self)
        ensures
            r == Self::horizontal_max4_spec(a, b, c, d),
    {
        Float4 {
            a: max(a.a, max(a.b, max(a.c, a.d))),
            b: max(b.a, max(b.b, max(b.c, b.d))),
            c: max(c.a, max(c.b, max(c.c, c.d))),
            d: max(d.a, max(d.b, max(d.c, d.d))),
        }
    }

    /// The smallest and the largest lane of each of four vectors.
    pub fn horizontal_min_max4(a: Self, b: Self, c: Self, d: Self) -> (r: (Self, Self))
        ensures
            r == (Self::horizontal_min4_spec(a, b, c, d), Self::horizontal_max4_spec(a, b, c, d)),
    {
        (Self::horizontal_min4(a, b, c, d), Self::horizontal_max4(a, b, c, d))
    }

    /// Four dot products at once: lane `i` is the horizontal sum of the
    /// lane-wise product of the `i`-th pair.
    pub open spec fn dot4_spec(
        lhs1: Self,
        rhs1: Self,
        lhs2: Self,
        rhs2: Self,
        lhs3: Self,
        rhs3: Self,
        lhs4: Self,
        rhs4: Self,
    ) -> Self {
        Self::horizontal_sum4_spec(
            lhs1.mul_spec(rhs1),
            lhs2.mul_spec(rhs2),
            lhs3.mul_spec(rhs3),
            lhs4.mul_spec(rhs4),
        )
    }

    /// Four dot products at once: lane `i` is the horizontal sum of the
    /// lane-wise product of the `i`-th pair.
    pub fn dot4(
        lhs1: Self,
        rhs1: Self,
        lhs2: Self,
        rhs2: Self,
        lhs3: Self,
        rhs3: Self,
        lhs4: Self,
        rhs4: Self,
    ) -> (r: Self)
        ensures
            r == Self::dot4_spec(lhs1, rhs1, lhs2, rhs2, lhs3, rhs3, lhs4, rhs4),
    {
        Self::horizontal_sum4(lhs1.mul(rhs1), lhs2.mul(rhs2), lhs3.mul(rhs3), lhs4.mul(rhs4))
    }

    /// Whether every lane of `self` is within `epsilon` of the same lane of
    /// `other`.
    pub open spec fn approx_eq_within_spec(self, other: Self, epsilon: S) -> bool {
        let r = self.sub_spec(other).abs_spec().less_or_equal_spec(Self::splat_spec(epsilon));
        r.0 && r.1 && r.2 && r.3
    }

    /// Whether every lane of `self` is within `epsilon` of the same lane of
    /// `other`.
    pub fn approx_eq_within(&self, other: &Self, epsilon: S) -> (r: bool)
        ensures
            r == self.approx_eq_within_spec(*other, epsilon),
    {
        let (a, b, c, d) = self.sub(*other).abs().less_or_equal(Self::splat(epsilon));
        a && b && c && d
    }

    /// Whether every lane of `self` is within the shared tolerance of the
    /// same lane of `other`.
    pub fn approx_eq(&self, other: &Self) -> (r: bool)
        ensures
            r == self.approx_eq_within_spec(*other, crate::scalar::epsilon_spec::<S>()),
    {
        self.approx_eq_within(other, crate::scalar::epsilon::<S>())
    }
}

} // verus!
