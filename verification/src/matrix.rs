//! Small matrices over [`Float4`] rows and columns, as far as curve
//! evaluation needs them.
use crate::float4::Float4;
use crate::point::Vec2;
use crate::scalar::Scalar;
use vstd::prelude::*;

verus! {

/// A 4x4 matrix held as four rows.
#[derive(Clone, Copy, Debug, PartialEq)]
pub struct Float4x4<S: Scalar>(pub Float4<S>, pub Float4<S>, pub Float4<S>, pub Float4<S>);

impl<S: Scalar> Float4x4<S> {
    /// The matrix with the given rows.
    pub fn new(r0: Float4<S>, r1: Float4<S>, r2: Float4<S>, r3: Float4<S>) -> (r: Self)
        ensures
            r == Float4x4(r0, r1, r2, r3),
    {
        Float4x4(r0, r1, r2, r3)
    }

    /// The first row.
    pub fn r0(&self) -> (r: &Float4<S>)
        ensures
            *r == self.0,
    {
        &self.0
    }

    /// The second row.
    pub fn r1(&self) -> (r: &Float4<S>)
        ensures
            *r == self.1,
    {
        &self.1
    }

    /// The third row.
    pub fn r2(&self) -> (r: &Float4<S>)
        ensures
            *r == self.2,
    {
        &self.2
    }

    /// The fourth row.
    pub fn r3(&self) -> (r: &Float4<S>)
        ensures
            *r == self.3,
    {
        &self.3
    }

    /// The product of the matrix with a column vector: every row is
    /// multiplied lane by lane with `rhs`, and the four columns of these
    /// products are added from the first to the last.
    pub open spec fn mul_vec4_spec(self, rhs: Float4<S>) -> Float4<S> {
        let t = Float4::transpose4x4_spec(
            self.0.mul_spec(rhs),
            self.1.mul_spec(rhs),
            self.2.mul_spec(rhs),
            self.3.mul_spec(rhs),
        );
        t.0.add_spec(t.1).add_spec(t.2).add_spec(t.3)
    }

    /// The matrix times the column vector `rhs`.
    pub fn mul_vec4(self, rhs: Float4<S>) -> (r: Float4<S>)
        ensures
            r == self.mul_vec4_spec(rhs),
    {
        let (c0, c1, c2, c3) = Float4::transpose4x4(
            self.0.mul_elements(&rhs),
            self.1.mul_elements(&rhs),
            self.2.mul_elements(&rhs),
            self.3.mul_elements(&rhs),
        );
        c0.add(c1).add(c2).add(c3)
    }
}

impl<S: Scalar> Float4<S> {
    /// The product of a row vector with a matrix: row `i` scaled by lane `i`,
    /// the four scaled rows added from the first to the last.
    pub open spec fn mul_matrix_spec(self, rhs: Float4x4<S>) -> Float4<S> {
        rhs.0.scale_spec(self.a).add_spec(rhs.1.scale_spec(self.b)).add_spec(
            rhs.2.scale_spec(self.c),
        ).add_spec(rhs.3.scale_spec(self.d))
    }

    /// The row vector `self` times the matrix `rhs`.
    pub fn mul_matrix(self, rhs: Float4x4<S>) -> (r: Float4<S>)
        ensures
            r == self.mul_matrix_spec(rhs),
    {
        rhs.0.scale(self.a).add(rhs.1.scale(self.b)).add(rhs.2.scale(self.c)).add(
            rhs.3.scale(self.d),
        )
    }
}

/// A matrix with 4 rows and 4 columns.
#[derive(Clone, Copy, Debug, PartialEq)]
pub struct Mat4x4<S: Scalar> {
    pub r0: Float4<S>,
    pub r1: Float4<S>,
    pub r2: Float4<S>,
    pub r3: Float4<S>,
}

/// A matrix with 1 row and 4 columns.
#[derive(Clone, Copy, Debug, PartialEq)]
pub struct Mat1x4<S: Scalar> {
    pub r0: Float4<S>,
}

/// A matrix with 4 rows and 2 columns, held as its two columns.
#[derive(Clone, Copy, Debug, PartialEq)]
pub struct Mat4x2<S: Scalar> {
    pub c0: Float4<S>,
    pub c1: Float4<S>,
}

impl<S: Scalar> Mat4x4<S> {
    /// Builds the matrix from its entries, row by row.
    pub fn new(
        v11: S,
        v12: S,
        v13: S,
        v14: S,
        v21: S,
        v22: S,
        v23: S,
        v24: S,
        v31: S,
        v32: S,
        v33: S,
        v34: S,
        v41: S,
        v42: S,
        v43: S,
        v44: S,
    ) -> (r: Self)
        ensures
            r == (Mat4x4 {
                r0: Float4 { a: v11, b: v12, c: v13, d: v14 },
                r1: Float4 { a: v21, b: v22, c: v23, d: v24 },
                r2: Float4 { a: v31, b: v32, c: v33, d: v34 },
                r3: Float4 { a: v41, b: v42, c: v43, d: v44 },
            }),
    {
        Mat4x4 {
            r0: Float4::new(v11, v12, v13, v14),
            r1: Float4::new(v21, v22, v23, v24),
            r2: Float4::new(v31, v32, v33, v34),
            r3: Float4::new(v41, v42, v43, v44),
        }
    }

    /// The first row.
    pub fn r0(&self) -> (r: (S, S, S, S))
        ensures
            r == (self.r0.a, self.r0.b, self.r0.c, self.r0.d),
    {
        self.r0.unpack()
    }

    /// The second row.
    pub fn r1(&self) -> (r: (S, S, S, S))
        ensures
            r == (self.r1.a, self.r1.b, self.r1.c, self.r1.d),
    {
        self.r1.unpack()
    }

    /// The third row.
    pub fn r2(&self) -> (r: (S, S, S, S))
        ensures
            r == (self.r2.a, self.r2.b, self.r2.c, self.r2.d),
    {
        self.r2.unpack()
    }

    /// The fourth row.
    pub fn r3(&self) -> (r: (S, S, S, S))
        ensures
            r == (self.r3.a, self.r3.b, self.r3.c, self.r3.d),
    {
        self.r3.unpack()
    }

    /// Flips the matrix across its diagonal.
    pub open spec fn transpose_spec(self) -> Self {
        let t = Float4::transpose4x4_spec(self.r0, self.r1, self.r2, self.r3);
        Mat4x4 { r0: t.0, r1: t.1, r2: t.2, r3: t.3 }
    }

    /// Flips the matrix across its diagonal.
    pub fn transpose(&self) -> (r: Self)
        ensures
            r == self.transpose_spec(),
    {
        let (r0, r1, r2, r3) = Float4::transpose4x4(self.r0, self.r1, self.r2, self.r3);
        Mat4x4 { r0, r1, r2, r3 }
    }

    /// The product of the matrix with a column vector: every row is
    /// multiplied lane by lane with `rhs`, and the four columns of these
    /// products are added from the first to the last.
    pub open spec fn mul_vec4_spec(self, rhs: Float4<S>) -> Float4<S> {
        Float4x4(self.r0, self.r1, self.r2, self.r3).mul_vec4_spec(rhs)
    }

    /// The matrix times the column vector `rhs`.
    pub fn mul_vec4(self, rhs: Float4<S>) -> (r: Float4<S>)
        ensures
            r == self.mul_vec4_spec(rhs),
    {
        Float4x4(self.r0, self.r1, self.r2, self.r3).mul_vec4(rhs)
    }

    /// The matrix times a 4x2 matrix: entry `(i, j)` is the horizontal sum of
    /// row `i` multiplied lane by lane with column `j`.
    pub open spec fn mul_4x2_spec(self, rhs: Mat4x2<S>) -> Mat4x2<S> {
        Mat4x2 {
            c0: Float4::horizontal_sum4_spec(
                self.r0.mul_spec(rhs.c0),
                self.r1.mul_spec(rhs.c0),
                self.r2.mul_spec(rhs.c0),
                self.r3.mul_spec(rhs.c0),
            ),
            c1: Float4::horizontal_sum4_spec(
                self.r0.mul_spec(rhs.c1),
                self.r1.mul_spec(rhs.c1),
                self.r2.mul_spec(rhs.c1),
                self.r3.mul_spec(rhs.c1),
            ),
        }
    }

    /// The matrix times a 4x2 matrix: entry `(i, j)` is the horizontal sum of
    /// row `i` multiplied lane by lane with column `j`.
    pub fn mul_4x2(self, rhs: Mat4x2<S>) -> (r: Mat4x2<S>)
        ensures
            r == self.mul_4x2_spec(rhs),
    {
        Mat4x2 {
            c0: Float4::horizontal_sum4(
                self.r0.mul(rhs.c0),
                self.r1.mul(rhs.c0),
                self.r2.mul(rhs.c0),
                self.r3.mul(rhs.c0),
            ),
            c1: Float4::horizontal_sum4(
                self.r0.mul(rhs.c1),
                self.r1.mul(rhs.c1),
                self.r2.mul(rhs.c1),
                self.r3.mul(rhs.c1),
            ),
        }
    }
}

impl<S: Scalar> Mat1x4<S> {
    /// The row with the given entries.
    pub fn new(v11: S, v12: S, v13: S, v14: S) -> (r: Self)
        ensures
            r == (Mat1x4 { r0: Float4 { a: v11, b: v12, c: v13, d: v14 } }),
    {
        Mat1x4 { r0: Float4::new(v11, v12, v13, v14) }
    }

    /// The row times a 4x4 matrix: row `i` of the matrix scaled by entry `i`,
    /// the four scaled rows added from the first to the last.
    pub open spec fn mul_4x4_spec(self, rhs: Mat4x4<S>) -> Self {
        Mat1x4 {
            r0: rhs.r0.scale_spec(self.r0.a).add_spec(rhs.r1.scale_spec(self.r0.b)).add_spec(
                rhs.r2.scale_spec(self.r0.c),
            ).add_spec(rhs.r3.scale_spec(self.r0.d)),
        }
    }

    /// The row times a 4x4 matrix: row `i` of the matrix scaled by entry `i`,
    /// the four scaled rows added from the first to the last.
    pub fn mul_4x4(self, rhs: Mat4x4<S>) -> (r: Self)
        ensures
            r == self.mul_4x4_spec(rhs),
    {
        Mat1x4 {
            r0: rhs.r0.scale(self.r0.a).add(rhs.r1.scale(self.r0.b)).add(
                rhs.r2.scale(self.r0.c),
            ).add(rhs.r3.scale(self.r0.d)),
        }
    }

    /// The row times a 4x2 matrix: the horizontal sums of the row multiplied
    /// lane by lane with each column.
    pub open spec fn mul_4x2_spec(self, rhs: Mat4x2<S>) -> Vec2<S> {
        Vec2 {
            x: self.r0.mul_spec(rhs.c0).horizontal_sum_spec(),
            y: self.r0.mul_spec(rhs.c1).horizontal_sum_spec(),
        }
    }

    /// The row times a 4x2 matrix: the horizontal sums of the row multiplied
    /// lane by lane with each column.
    pub fn mul_4x2(self, rhs: Mat4x2<S>) -> (r: Vec2<S>)
        ensures
            r == self.mul_4x2_spec(rhs),
    {
        let (x, y) = Float4::horizontal_sum2(self.r0.mul(rhs.c0), self.r0.mul(rhs.c1));
        Vec2 { x, y }
    }
}

impl<S: Scalar> Mat4x2<S> {
    /// Builds the matrix from its entries, row by row.
    pub fn new(v11: S, v12: S, v21: S, v22: S, v31: S, v32: S, v41: S, v42: S) -> (r: Self)
        ensures
            r == (Mat4x2 {
                c0: Float4 { a: v11, b: v21, c: v31, d: v41 },
                c1: Float4 { a: v12, b: v22, c: v32, d: v42 },
            }),
    {
        Mat4x2 { c0: Float4::new(v11, v21, v31, v41), c1: Float4::new(v12, v22, v32, v42) }
    }

    /// Builds the matrix from its two columns.
    pub fn from_columns(c0: Float4<S>, c1: Float4<S>) -> (r: Self)
        ensures
            r == (Mat4x2 { c0, c1 }),
    {
        Mat4x2 { c0, c1 }
    }
}

} // verus!
