//! The number type that the geometry computes with.
//!
//! The curves, lines and boxes of this crate never name a concrete number
//! type. They consume a fixed set of operations, [`Scalar`], and say in their
//! contracts which of these operations, applied in which order, produce each
//! result. [`crate::fixed::Fixed`] is the scalar that this crate ships; an
//! application that wants hardware floating point implements the trait for a
//! type of its own.
use vstd::prelude::*;

verus! {

/// A number with the arithmetic and the comparisons that the geometry needs.
///
/// Every operation is total: it returns for every argument and never panics.
/// Each executable operation returns exactly what its `*_spec` twin names, so
/// a result depends on the arguments alone. An implementation says what each
/// twin is; one that leaves a twin out leaves the result unspecified.
///
/// The trait assumes no law of arithmetic, since rounding number types break
/// most of them. The few statements of this crate that need the order to be
/// an order, or zero and one to differ, ask for [`strict_order`] and
/// [`units_distinct`].
pub trait Scalar: Copy + Sized {
    /// The scalar nearest to the integer `n`.
    open spec fn from_int_spec(n: int) -> Self {
        arbitrary()
    }

    /// The largest finite scalar.
    open spec fn max_value_spec() -> Self {
        arbitrary()
    }

    /// The tolerance of the approximate comparisons: one hundred-thousandth
    /// where the scalar can hold it, else the smallest positive scalar.
    open spec fn epsilon_spec() -> Self {
        arbitrary()
    }

    /// The sum `self + rhs`.
    open spec fn add_spec(self, rhs: Self) -> Self {
        arbitrary()
    }

    /// The difference `self - rhs`.
    open spec fn sub_spec(self, rhs: Self) -> Self {
        arbitrary()
    }

    /// The product `self * rhs`.
    open spec fn mul_spec(self, rhs: Self) -> Self {
        arbitrary()
    }

    /// The quotient `self / rhs`.
    open spec fn div_spec(self, rhs: Self) -> Self {
        arbitrary()
    }

    /// The negation `-self`.
    open spec fn neg_spec(self) -> Self {
        arbitrary()
    }

    /// The absolute value of `self`.
    open spec fn abs_spec(self) -> Self {
        arbitrary()
    }

    /// The square root of `self`.
    open spec fn sqrt_spec(self) -> Self {
        arbitrary()
    }

    /// Whether `self` is strictly below `rhs`.
    open spec fn lt_spec(self, rhs: Self) -> bool {
        arbitrary()
    }

    /// Whether `self` is below or equal to `rhs`.
    open spec fn le_spec(self, rhs: Self) -> bool {
        arbitrary()
    }

    /// Whether `self` and `rhs` compare equal as numbers.
    open spec fn eq_spec(self, rhs: Self) -> bool {
        arbitrary()
    }

    /// The scalar nearest to the integer `n`.
    fn from_int(n: i32) -> (r: Self)
        ensures
            r == Self::from_int_spec(n as int),
    ;

    /// The largest finite scalar.
    fn max_value() -> (r: Self)
        ensures
            r == Self::max_value_spec(),
    ;

    /// The tolerance of the approximate comparisons: one hundred-thousandth
    /// where the scalar can hold it, else the smallest positive scalar.
    fn epsilon() -> (r: Self)
        ensures
            r == Self::epsilon_spec(),
    ;

    /// `self + rhs`.
    fn add(self, rhs: Self) -> (r: Self)
        ensures
            r == self.add_spec(rhs),
    ;

    /// `self - rhs`.
    fn sub(self, rhs: Self) -> (r: Self)
        ensures
            r == self.sub_spec(rhs),
    ;

    /// `self * rhs`.
    fn mul(self, rhs: Self) -> (r: Self)
        ensures
            r == self.mul_spec(rhs),
    ;

    /// `self / rhs`. It returns for every divisor, zero included.
    fn div(self, rhs: Self) -> (r: Self)
        ensures
            r == self.div_spec(rhs),
    ;

    /// `-self`.
    fn neg(self) -> (r: Self)
        ensures
            r == self.neg_spec(),
    ;

    /// The absolute value of `self`.
    fn abs(self) -> (r: Self)
        ensures
            r == self.abs_spec(),
    ;

    /// The square root of `self`. It returns for every argument.
    fn sqrt(self) -> (r: Self)
        ensures
            r == self.sqrt_spec(),
    ;

    /// Whether `self` is strictly below `rhs`.
    fn lt(self, rhs: Self) -> (r: bool)
        ensures
            r == self.lt_spec(rhs),
    ;

    /// Whether `self` is below or equal to `rhs`.
    fn le(self, rhs: Self) -> (r: bool)
        ensures
            r == self.le_spec(rhs),
    ;

    /// Whether `self` and `rhs` compare equal as numbers.
    fn eq(self, rhs: Self) -> (r: bool)
        ensures
            r == self.eq_spec(rhs),
    ;
}

/// Whether `lt` is a strict order on `S`: nothing is below itself, and what is
/// below something that is below a third is below the third. Comparisons of
/// floating-point numbers are such an order, whatever they hold.
pub open spec fn strict_order<S: Scalar>() -> bool {
    &&& forall|a: S| !(#[trigger] a.lt_spec(a))
    &&& forall|a: S, b: S, c: S| #[trigger] a.lt_spec(b) && #[trigger] b.lt_spec(c) ==> a.lt_spec(c)
}

/// Whether `eq` finds zero and one equal to themselves and not to each other.
pub open spec fn units_distinct<S: Scalar>() -> bool {
    &&& S::from_int_spec(0).eq_spec(S::from_int_spec(0))
    &&& S::from_int_spec(1).eq_spec(S::from_int_spec(1))
    &&& !S::from_int_spec(0).eq_spec(S::from_int_spec(1))
    &&& !S::from_int_spec(1).eq_spec(S::from_int_spec(0))
}

/// The scalar zero.
pub open spec fn zero_spec<S: Scalar>() -> S {
    S::from_int_spec(0)
}

/// The scalar one.
pub open spec fn one_spec<S: Scalar>() -> S {
    S::from_int_spec(1)
}

/// The scalar nearest to the fraction `num / den`.
pub open spec fn ratio_spec<S: Scalar>(num: int, den: int) -> S {
    S::from_int_spec(num).div_spec(S::from_int_spec(den))
}

/// The tolerance that every approximate comparison of this crate shares:
/// that of the scalar.
pub open spec fn epsilon_spec<S: Scalar>() -> S {
    S::epsilon_spec()
}

/// The smaller of two scalars: `a` where `a` is strictly below `b`, else `b`.
pub open spec fn min_spec<S: Scalar>(a: S, b: S) -> S {
    if a.lt_spec(b) {
        a
    } else {
        b
    }
}

/// The larger of two scalars: `a` where `b` is strictly below `a`, else `b`.
pub open spec fn max_spec<S: Scalar>(a: S, b: S) -> S {
    if b.lt_spec(a) {
        a
    } else {
        b
    }
}

/// The point at `t` on the way from `a` to `b`: `(1 - t) * a + t * b`.
pub open spec fn lerp_spec<S: Scalar>(a: S, t: S, b: S) -> S {
    one_spec::<S>().sub_spec(t).mul_spec(a).add_spec(t.mul_spec(b))
}

/// Whether `a` and `b` differ by at most `epsilon`: `|b - a| <= epsilon`.
pub open spec fn approx_eq_within_spec<S: Scalar>(a: S, b: S, epsilon: S) -> bool {
    b.sub_spec(a).abs_spec().le_spec(epsilon)
}

/// Whether `a` and `b` differ by at most the shared tolerance.
pub open spec fn approx_eq_spec<S: Scalar>(a: S, b: S) -> bool {
    approx_eq_within_spec(a, b, epsilon_spec::<S>())
}

/// The scalar zero.
pub fn zero<S: Scalar>() -> (r: S)
    ensures
        r == zero_spec::<S>(),
{
    S::from_int(0)
}

/// The scalar one.
pub fn one<S: Scalar>() -> (r: S)
    ensures
        r == one_spec::<S>(),
{
    S::from_int(1)
}

/// The scalar nearest to the fraction `num / den`: the two integers as
/// scalars, divided.
pub fn ratio<S: Scalar>(num: i32, den: i32) -> (r: S)
    ensures
        r == ratio_spec::<S>(num as int, den as int),
{
    S::from_int(num).div(S::from_int(den))
}

/// The tolerance that every approximate comparison of this crate shares.
pub fn epsilon<S: Scalar>() -> (r: S)
    ensures
        r == epsilon_spec::<S>(),
{
    S::epsilon()
}

/// The smaller of two scalars: `a` where `a` is strictly below `b`, else `b`.
pub fn min<S: Scalar>(a: S, b: S) -> (r: S)
    ensures
        r == min_spec(a, b),
{
    if a.lt(b) {
        a
    } else {
        b
    }
}

/// The larger of two scalars: `a` where `b` is strictly below `a`, else `b`.
pub fn max<S: Scalar>(a: S, b: S) -> (r: S)
    ensures
        r == max_spec(a, b),
{
    if b.lt(a) {
        a
    } else {
        b
    }
}

/// The point at `t` on the way from `a` to `b`: `(1 - t) * a + t * b`.
pub fn lerp<S: Scalar>(a: S, t: S, b: S) -> (r: S)
    ensures
        r == lerp_spec(a, t, b),
{
    one::<S>().sub(t).mul(a).add(t.mul(b))
}

/// Whether `a` and `b` differ by at most `epsilon`.
pub fn approx_eq_within<S: Scalar>(a: S, b: S, epsilon: S) -> (r: bool)
    ensures
        r == approx_eq_within_spec(a, b, epsilon),
{
    b.sub(a).abs().le(epsilon)
}

/// Whether `a` and `b` differ by at most the shared tolerance.
pub fn approx_eq<S: Scalar>(a: S, b: S) -> (r: bool)
    ensures
        r == approx_eq_spec(a, b),
{
    approx_eq_within(a, b, epsilon::<S>())
}

/// `lt` never holds in both directions.
pub proof fn lemma_lt_asymmetric<S: Scalar>(a: S, b: S)
    requires
        strict_order::<S>(),
        a.lt_spec(b),
    ensures
        !b.lt_spec(a),
{
    if b.lt_spec(a) {
        assert(a.lt_spec(a));
    }
}

/// No argument of `min_spec` is strictly below the result, and the result is
/// one of the arguments.
pub proof fn lemma_min_is_lower_bound<S: Scalar>(a: S, b: S)
    requires
        strict_order::<S>(),
    ensures
        !a.lt_spec(min_spec(a, b)),
        !b.lt_spec(min_spec(a, b)),
        min_spec(a, b) == a || min_spec(a, b) == b,
{
    if a.lt_spec(b) {
        lemma_lt_asymmetric(a, b);
    }
}

/// The result of `max_spec` is strictly below neither argument, and it is
/// one of the arguments.
pub proof fn lemma_max_is_upper_bound<S: Scalar>(a: S, b: S)
    requires
        strict_order::<S>(),
    ensures
        !max_spec(a, b).lt_spec(a),
        !max_spec(a, b).lt_spec(b),
        max_spec(a, b) == a || max_spec(a, b) == b,
{
    if b.lt_spec(a) {
        lemma_lt_asymmetric(b, a);
    }
}

} // verus!
