//! What the geometry comes to on the fixed-point scalar.
//!
//! The curves and lines of this crate promise which operations they apply,
//! not how close the result is to the real number that the operations stand
//! for: that depends on the scalar. For [`Fixed`] it can be said. Sums and
//! differences are exact and a product is rounded toward zero by less than
//! one raw unit, as long as nothing saturates. The laws below follow from
//! that. Those on the subdivision of a curve hold of every curve; those on
//! the power form and on lines leave out the values on which a product or a
//! sum could leave the range.
use crate::bezier::Cubic;
use crate::blend::{
    blend2_spec, blend3_spec, blend_spec, lemma_blend3_carries, lemma_blend3_shifts,
    lemma_blend3_weights_scale, lemma_left_subdivides, lemma_right_subdivides, lemma_spread,
    lemma_swap, near_spec,
};
use crate::fixed::{
    is_root_spec, lemma_fixed_is_ordered, lemma_fixed_tolerance, lemma_quotient_exact,
    lemma_quotient_near, lemma_quotient_near_signed, lemma_root_exists, lemma_root_unique,
    magnitude_spec, quotient_spec, root_spec, Fixed,
};
use crate::float4::Float4;
use crate::intersection::{fat_line_spec, lemma_fat_line_tight};
use crate::line::Line;
use crate::matrix::Mat1x4;
use crate::point::Point;
use crate::scalar::{approx_eq_spec, lerp_spec, one_spec, ratio_spec, zero_spec, Scalar};
use vstd::arithmetic::mul::{
    lemma_mul_is_associative, lemma_mul_is_commutative, lemma_mul_is_distributive_add,
    lemma_mul_is_distributive_add_other_way, lemma_mul_is_distributive_sub,
    lemma_mul_is_distributive_sub_other_way,
};
use vstd::prelude::*;

verus! {

/// The largest magnitude of a raw coordinate for which the laws of the
/// power form are stated: two to the power of 57. Up to there no product of
/// a weight and a coordinate, and no sum of four of them, comes near the
/// ends of the range.
pub const MODERATE: i64 = 144115188075855872;

/// Whether the four coordinates stay within `reach` raw units of zero.
pub open spec fn bounded_spec(v: [Fixed; 4], reach: int) -> bool {
    forall|i: int| 0 <= i < 4 ==> -reach <= (#[trigger] v[i]).raw <= reach
}

/// Eight times the weighted sum of four coordinates with the weights
/// `1/8, 3/8, 3/8, 1/8`, over the raw values.
pub open spec fn midpoint_blend_spec(v: [Fixed; 4]) -> int {
    v[0].raw + 3 * v[1].raw + 3 * v[2].raw + v[3].raw
}

/// Whether `point` can be placed against `line` with no saturation: the
/// product `a * x` is not the lowest value of the range, which has no
/// negation, and the sum of `a * x` and `b * y` is neither the lowest value
/// nor outside of the range.
pub open spec fn placed_spec(line: Line<Fixed>, point: Point<Fixed>) -> bool {
    let u = line.a.mul_spec(point.x).raw;
    let v = line.b.mul_spec(point.y).raw;
    i64::MIN < u && i64::MIN < u + v <= i64::MAX
}

/// One half is the raw value 32768.
proof fn lemma_half()
    ensures
        ratio_spec::<Fixed>(1, 2) == (Fixed { raw: 32768 }),
{
    lemma_quotient_exact(4294967296int, 131072int, 32768int);
}

/// The square of one half is a quarter, and its cube an eighth.
proof fn lemma_powers()
    ensures
        (Fixed { raw: 32768 }).mul_spec(Fixed { raw: 32768 }) == (Fixed { raw: 16384 }),
        (Fixed { raw: 16384 }).mul_spec(Fixed { raw: 32768 }) == (Fixed { raw: 8192 }),
{
    lemma_quotient_exact(1073741824int, 65536int, 16384int);
    lemma_quotient_exact(536870912int, 65536int, 8192int);
}

/// The row `[1, 1/2, 1/4, 1/8]` times the basis matrix is
/// `[1/8, 3/8, 3/8, 1/8]`.
proof fn lemma_weights()
    ensures
        (Mat1x4 {
            r0: Float4 {
                a: Fixed { raw: 65536 },
                b: Fixed { raw: 32768 },
                c: Fixed { raw: 16384 },
                d: Fixed { raw: 8192 },
            },
        }).mul_4x4_spec(Cubic::<Fixed>::basis_spec()) == (Mat1x4 {
            r0: Float4 {
                a: Fixed { raw: 8192 },
                b: Fixed { raw: 24576 },
                c: Fixed { raw: 24576 },
                d: Fixed { raw: 8192 },
            },
        }),
{
    // One times the first row.
    lemma_quotient_exact(65536int * 65536int, 65536int, 65536int);
    lemma_quotient_exact(0int, 65536int, 0int);
    // One half times the second row.
    lemma_quotient_exact(32768int * (-196608int), 65536int, -98304int);
    lemma_quotient_exact(32768int * 196608int, 65536int, 98304int);
    // One quarter times the third row.
    lemma_quotient_exact(16384int * 196608int, 65536int, 49152int);
    lemma_quotient_exact(16384int * (-393216int), 65536int, -98304int);
    // One eighth times the fourth row.
    lemma_quotient_exact(8192int * (-65536int), 65536int, -8192int);
    lemma_quotient_exact(8192int * 196608int, 65536int, 24576int);
    lemma_quotient_exact(8192int * (-196608int), 65536int, -24576int);
    lemma_quotient_exact(8192int * 65536int, 65536int, 8192int);
}

/// One eighth of a scalar, rounded toward zero.
proof fn lemma_eighth(x: Fixed)
    ensures
        -8 < x.raw - 8 * (Fixed { raw: 8192 }).mul_spec(x).raw < 8,
        x.raw >= 0 ==> 0 <= 8 * (Fixed { raw: 8192 }).mul_spec(x).raw <= x.raw,
        x.raw <= 0 ==> x.raw <= 8 * (Fixed { raw: 8192 }).mul_spec(x).raw <= 0,
{
    let n = 8192 * x.raw;
    let q = quotient_spec(n, 65536);
    lemma_quotient_near(n, 65536);
    assert(-65536 < 8192 * x.raw - 65536 * q < 65536);
    assert(-8 < x.raw - 8 * q < 8);
    assert(x.raw >= 0 ==> 0 <= 8 * q <= x.raw);
    assert(x.raw <= 0 ==> x.raw <= 8 * q <= 0);
}

/// Three eighths of a scalar, rounded toward zero.
proof fn lemma_three_eighths(x: Fixed)
    ensures
        -8 < 3 * x.raw - 8 * (Fixed { raw: 24576 }).mul_spec(x).raw < 8,
        x.raw >= 0 ==> 0 <= 8 * (Fixed { raw: 24576 }).mul_spec(x).raw <= 3 * x.raw,
        x.raw <= 0 ==> 3 * x.raw <= 8 * (Fixed { raw: 24576 }).mul_spec(x).raw <= 0,
{
    let n = 24576 * x.raw;
    let q = quotient_spec(n, 65536);
    lemma_quotient_near(n, 65536);
    assert(-65536 < 24576 * x.raw - 65536 * q < 65536);
    assert(-8 < 3 * x.raw - 8 * q < 8);
    assert(x.raw >= 0 ==> 0 <= 8 * q <= 3 * x.raw);
    assert(x.raw <= 0 ==> 3 * x.raw <= 8 * q <= 0);
}

/// The weights of the midpoint applied to one column of coordinates. The
/// sum cannot leave the range: the weights add up to one.
proof fn lemma_weighted_sum(v: [Fixed; 4])
    ensures
        ({
            let w = Float4 {
                a: Fixed { raw: 8192 },
                b: Fixed { raw: 24576 },
                c: Fixed { raw: 24576 },
                d: Fixed { raw: 8192 },
            };
            let s = w.mul_spec(Float4::from_array_spec(v)).horizontal_sum_spec();
            -32 < 8 * s.raw - midpoint_blend_spec(v) < 32
        }),
{
    lemma_eighth(v[0]);
    lemma_three_eighths(v[1]);
    lemma_three_eighths(v[2]);
    lemma_eighth(v[3]);
}

/// At one half every curve lies at the blend of its control points with
/// the weights `1/8, 3/8, 3/8, 1/8`, up to the rounding of four products:
/// each coordinate misses the blend by less than four raw units, that is by
/// less than `4/65536`.
pub proof fn lemma_fixed_midpoint(c: Cubic<Fixed>)
    ensures
        -32 < 8 * c.at_spec(ratio_spec::<Fixed>(1, 2)).x.raw - midpoint_blend_spec(c.x) < 32,
        -32 < 8 * c.at_spec(ratio_spec::<Fixed>(1, 2)).y.raw - midpoint_blend_spec(c.y) < 32,
{
    lemma_half();
    lemma_powers();
    lemma_weights();
    lemma_weighted_sum(c.x);
    lemma_weighted_sum(c.y);
    let t = Fixed { raw: 32768 };
    assert(!t.eq_spec(zero_spec()));
    assert(!t.eq_spec(one_spec()));
    assert(one_spec::<Fixed>() == (Fixed { raw: 65536 }));
}

/// The parallel through a point passes through it: the signed distance from
/// the parallel to the point is zero, with no rounding.
pub proof fn lemma_fixed_parallel_touches(line: Line<Fixed>, point: Point<Fixed>)
    requires
        placed_spec(line, point),
    ensures
        line.parallel_through_spec(point).signed_distance_to_spec(point) == zero_spec::<Fixed>(),
{
}

/// The signed distance to a point does not fall where the offset of the
/// line rises.
pub proof fn lemma_fixed_distance_rises(line: Line<Fixed>, c: Fixed, point: Point<Fixed>)
    requires
        line.c.raw <= c.raw,
    ensures
        line.signed_distance_to_spec(point).raw <= (Line {
            a: line.a,
            b: line.b,
            c,
        }).signed_distance_to_spec(point).raw,
{
}

/// The fat line touches the control points that shape it. Each inner
/// control point lies on or between the two lines: its signed distance from
/// the low line is not above zero, and from the high line not below. A line
/// of the two that is not the line through the ends passes through an inner
/// control point: the signed distance is zero, with no rounding. Of the
/// line through the ends [`lemma_fixed_line_passes`] and
/// [`lemma_fixed_upright`] say how near it passes by the ends.
pub proof fn lemma_fixed_fat_line_touches(curve: Cubic<Fixed>)
    requires
        placed_spec(
            Line::between_spec(curve.point_spec(0), curve.point_spec(3)),
            curve.point_spec(1),
        ),
        placed_spec(
            Line::between_spec(curve.point_spec(0), curve.point_spec(3)),
            curve.point_spec(2),
        ),
    ensures
        ({
            let thin = Line::between_spec(curve.point_spec(0), curve.point_spec(3));
            let (low, high) = fat_line_spec(curve);
            let p1 = curve.point_spec(1);
            let p2 = curve.point_spec(2);
            &&& low.signed_distance_to_spec(p1).raw <= 0 <= high.signed_distance_to_spec(p1).raw
            &&& low.signed_distance_to_spec(p2).raw <= 0 <= high.signed_distance_to_spec(p2).raw
            &&& low == thin || low.signed_distance_to_spec(p1).raw == 0
                || low.signed_distance_to_spec(p2).raw == 0
            &&& high == thin || high.signed_distance_to_spec(p1).raw == 0
                || high.signed_distance_to_spec(p2).raw == 0
        }),
{
    let thin = Line::between_spec(curve.point_spec(0), curve.point_spec(3));
    let (low, high) = fat_line_spec(curve);
    let p1 = curve.point_spec(1);
    let p2 = curve.point_spec(2);
    let line1 = thin.parallel_through_spec(p1);
    let line2 = thin.parallel_through_spec(p2);
    lemma_fixed_is_ordered();
    lemma_fat_line_tight(curve);
    lemma_fixed_parallel_touches(thin, p1);
    lemma_fixed_parallel_touches(thin, p2);
    lemma_fixed_distance_rises(low, line1.c, p1);
    lemma_fixed_distance_rises(low, line2.c, p2);
    lemma_fixed_distance_rises(line1, high.c, p1);
    lemma_fixed_distance_rises(line2, high.c, p2);
}

/// The line through two points of the same `x` is the upright line at that
/// `x`: it passes through the first point with no rounding, and the second
/// is off it by the tolerance at most. The one `x` left out is the lowest
/// value of the range, which has no negation.
pub proof fn lemma_fixed_upright(p1: Point<Fixed>, p2: Point<Fixed>)
    requires
        approx_eq_spec(p1.x, p2.x),
        i64::MIN < p1.x.raw,
    ensures
        Line::between_spec(p1, p2) == (Line {
            a: one_spec::<Fixed>(),
            b: zero_spec::<Fixed>(),
            c: p1.x.neg_spec(),
        }),
        Line::between_spec(p1, p2).signed_distance_to_spec(p1) == zero_spec::<Fixed>(),
        approx_eq_spec(Line::between_spec(p1, p2).signed_distance_to_spec(p2), zero_spec::<Fixed>()),
{
    // The coefficients one and zero, and the length of `(1, 0)`.
    assert(one_spec::<Fixed>() == (Fixed { raw: 65536 }));
    assert(zero_spec::<Fixed>() == (Fixed { raw: 0 }));
    lemma_quotient_exact(4294967296, 65536, 65536);
    lemma_quotient_exact(0, 65536, 0);
    assert(one_spec::<Fixed>().mul_spec(one_spec()) == (Fixed { raw: 65536 }));
    assert(0int * 0int == 0);
    assert((Fixed { raw: 0 }).mul_spec(Fixed { raw: 0 }) == (Fixed { raw: 0 }));
    assert(is_root_spec(4294967296, 65536));
    lemma_root_unique(4294967296, 65536, root_spec(4294967296));
    assert((Fixed { raw: 65536 }).sqrt_spec() == (Fixed { raw: 65536 }));
    // Division by that length, and the products with the two points.
    lemma_quotient_exact((-p1.x.raw) * 65536, 65536, -p1.x.raw);
    lemma_quotient_exact(65536 * p1.x.raw, 65536, p1.x.raw as int);
    lemma_quotient_exact(65536 * p2.x.raw, 65536, p2.x.raw as int);
    lemma_quotient_exact(0 * p1.y.raw, 65536, 0);
    lemma_quotient_exact(0 * p2.y.raw, 65536, 0);
    lemma_fixed_tolerance(p1.x, p2.x);
}

/// The signed distance of a point from a normalized line, over the
/// integers. `d` is the length that the line was divided by, `a`, `b` and
/// `c` the rounded coefficients of the line `s * x - y + off = 0`, and `q1`
/// and `q2` the rounded products with the point `(x, y)`. Where the point
/// is off the line before it was normalized by `d * slack` at most, at the
/// scale of the square of 65536, its signed distance is within
/// `(|x| + |y|) / 65536 + 3` raw units and `slack / 65536` of zero.
proof fn lemma_distance(d: int, a: int, b: int, c: int, s: int, off: int, x: int, y: int, q1: int, q2: int, slack: int)
    requires
        d >= 65536,
        -d < s * 65536 - d * a < d,
        -d < -4294967296 - d * b < d,
        -d < off * 65536 - d * c < d,
        -65536 < a * x - 65536 * q1 < 65536,
        -65536 < b * y - 65536 * q2 < 65536,
        near_spec(65536 * (s * x) - 4294967296 * y + 4294967296 * off, 0, d * slack),
    ensures
        near_spec(
            65536 * (q1 + q2 + c),
            0,
            magnitude_spec(x) + magnitude_spec(y) + 3 * 65536 + slack,
        ),
{
    let u = 65536int;
    let ra = s * u - d * a;
    let rb = -4294967296 - d * b;
    let rc = off * u - d * c;
    let r1 = a * x - u * q1;
    let r2 = b * y - u * q2;
    let z = u * (q1 + q2 + c);
    // `d * z`, spread out.
    lemma_swap(d, u, q1 + q2 + c);
    lemma_mul_is_distributive_add(d, q1 + q2, c);
    lemma_mul_is_distributive_add(d, q1, q2);
    lemma_swap(d, u, q1);
    lemma_swap(d, u, q2);
    assert(d * (u * q1) == d * (a * x) - d * r1) by {
        lemma_mul_is_distributive_sub(d, a * x, r1);
    }
    assert(d * (u * q2) == d * (b * y) - d * r2) by {
        lemma_mul_is_distributive_sub(d, b * y, r2);
    }
    lemma_mul_is_associative(d, a, x);
    lemma_mul_is_associative(d, b, y);
    assert((d * a) * x == u * (s * x) - ra * x) by {
        lemma_mul_is_distributive_sub_other_way(x, s * u, ra);
        lemma_mul_is_commutative(s, u);
        lemma_mul_is_associative(u, s, x);
    }
    assert((d * b) * y == -4294967296 * y - rb * y) by {
        lemma_mul_is_distributive_sub_other_way(y, -4294967296, rb);
    }
    assert(d * z == (u * (s * x) - 4294967296 * y + 4294967296 * off) - ra * x - rb * y - d * r1
        - d * r2 - u * rc);
    // The bounds of the parts.
    let mx = magnitude_spec(x);
    let my = magnitude_spec(y);
    assert(-(d * mx) <= ra * x <= d * mx) by (nonlinear_arith)
        requires
            -d < ra < d,
            -mx <= x <= mx,
    ;
    assert(-(d * my) <= rb * y <= d * my) by (nonlinear_arith)
        requires
            -d < rb < d,
            -my <= y <= my,
    ;
    assert(-(d * u) <= d * r1 <= d * u && -(d * u) <= d * r2 <= d * u) by (nonlinear_arith)
        requires
            d > 0,
            -u < r1 < u,
            -u < r2 < u,
    ;
    let k = mx + my + 3 * u + slack;
    lemma_mul_is_distributive_add(d, mx + my + 3 * u, slack);
    lemma_mul_is_distributive_add(d, mx + my, 3 * u);
    lemma_mul_is_distributive_add(d, mx, my);
    lemma_swap(d, 3, u);
    assert(-(d * k) <= d * z <= d * k);
    assert(-k <= z <= k) by (nonlinear_arith)
        requires
            d > 0,
            -(d * k) <= d * z <= d * k,
    ;
}

/// The largest magnitude of a raw coordinate for which the law of the line
/// through two points is stated: two to the power of 40.
pub const NEAR: i64 = 1099511627776;

/// The largest magnitude of a raw slope for which that law is stated: two
/// to the power of 30, a slope of 16384.
pub const STEEP: i64 = 1073741824;

/// Whether the two points lie within [`NEAR`] of the origin and the line
/// through them is no steeper than [`STEEP`].
pub open spec fn gentle_spec(p: Point<Fixed>, q: Point<Fixed>) -> bool {
    let delta = q.sub_spec(p);
    let slope = delta.y.div_spec(delta.x);
    &&& -NEAR <= p.x.raw <= NEAR && -NEAR <= p.y.raw <= NEAR
    &&& -NEAR <= q.x.raw <= NEAR && -NEAR <= q.y.raw <= NEAR
    &&& -STEEP <= slope.raw <= STEEP
}

/// A quotient by a divisor of 65536 and more: the product of the divisor
/// and the quotient misses the dividend by less than the divisor, and the
/// quotient is no larger than the dividend over 65536.
proof fn lemma_normalized(n: int, d: int, size: int)
    requires
        d >= 65536,
        -size <= n <= size,
    ensures
        -d < n * 65536 - d * quotient_spec(n * 65536, d) < d,
        -size <= quotient_spec(n * 65536, d) <= size,
{
    lemma_quotient_near(n * 65536, d);
    let q = quotient_spec(n * 65536, d);
    assert(-size <= q <= size) by (nonlinear_arith)
        requires
            d >= 65536,
            n >= 0 ==> 0 <= d * q <= n * 65536,
            n <= 0 ==> n * 65536 <= d * q <= 0,
            -size <= n <= size,
    ;
}

/// A product of two scalars, rounded toward zero, with its size.
proof fn lemma_sized_product(a: int, x: int, s1: int, s2: int)
    requires
        -s1 <= a <= s1,
        -s2 <= x <= s2,
    ensures
        -65536 < a * x - 65536 * quotient_spec(a * x, 65536) < 65536,
        -(s1 * s2) <= 65536 * quotient_spec(a * x, 65536) <= s1 * s2,
{
    lemma_quotient_near(a * x, 65536);
    assert(-(s1 * s2) <= a * x <= s1 * s2) by (nonlinear_arith)
        requires
            -s1 <= a <= s1,
            -s2 <= x <= s2,
    ;
}

/// The length that a line of the slope `s` is divided by: it is 65536 at
/// least, and small.
proof fn lemma_length(s: Fixed)
    requires
        -STEEP <= s.raw <= STEEP,
    ensures
        ({
            let d = s.mul_spec(s).add_spec(
                Fixed::from_int_spec(-1).mul_spec(Fixed::from_int_spec(-1)),
            ).sqrt_spec();
            65536 <= d.raw <= 2147483648
        }),
{
    let minus = Fixed::from_int_spec(-1);
    assert(minus.raw == -65536);
    assert((-65536int) * (-65536int) == 4294967296) by (nonlinear_arith);
    lemma_quotient_exact(4294967296, 65536, 65536);
    assert(minus.mul_spec(minus) == (Fixed { raw: 65536 }));
    lemma_sized_product(s.raw as int, s.raw as int, STEEP as int, STEEP as int);
    assert(STEEP * STEEP == 1152921504606846976) by (nonlinear_arith);
    let sq = quotient_spec(s.raw * s.raw, 65536);
    assert(0 <= s.raw * s.raw) by (nonlinear_arith);
    lemma_quotient_near(s.raw * s.raw, 65536);
    assert(0 <= sq <= 17592186044416);
    let v = sq + 65536;
    let n = v * 65536;
    lemma_root_exists(n);
    let d = root_spec(n);
    assert(d >= 65536) by (nonlinear_arith)
        requires
            d >= 0,
            (d + 1) * (d + 1) > n,
            n >= 4294967296,
    ;
    assert(d <= 2147483648) by (nonlinear_arith)
        requires
            d >= 0,
            d * d <= n,
            n <= 4611686018427387904,
    ;
}

/// The line through two points passes through them, up to rounding. For
/// two points that differ in `x` by more than the tolerance, lie within
/// [`NEAR`] of the origin and give a slope within [`STEEP`], the signed
/// distance of the first point from the line is within
/// `(|x| + |y|) / 65536 + 4` raw units of zero, and that of the second
/// within `(|x| + |y| + |dx|) / 65536 + 4`, where `dx` is the difference of
/// the two points in `x`.
pub proof fn lemma_fixed_line_passes(p: Point<Fixed>, q: Point<Fixed>)
    requires
        !approx_eq_spec(p.x, q.x),
        gentle_spec(p, q),
    ensures
        near_spec(
            65536 * Line::between_spec(p, q).signed_distance_to_spec(p).raw,
            0,
            magnitude_spec(p.x.raw as int) + magnitude_spec(p.y.raw as int) + 4 * 65536,
        ),
        near_spec(
            65536 * Line::between_spec(p, q).signed_distance_to_spec(q).raw,
            0,
            magnitude_spec(q.x.raw as int) + magnitude_spec(q.y.raw as int) + magnitude_spec(
                q.x.raw - p.x.raw,
            ) + 4 * 65536,
        ),
{
    let u = 65536int;
    let delta = q.sub_spec(p);
    let dx = q.x.raw - p.x.raw;
    let dy = q.y.raw - p.y.raw;
    assert(delta.x.raw == dx && delta.y.raw == dy);
    lemma_fixed_tolerance(p.x, q.x);
    assert(dx != 0);
    // The slope and the offset.
    let slope = delta.y.div_spec(delta.x);
    let s = slope.raw as int;
    lemma_quotient_near_signed(dy * 65536, dx);
    assert(s == quotient_spec(dy * 65536, dx));
    let m = slope.mul_spec(p.x);
    lemma_sized_product(s, p.x.raw as int, STEEP as int, NEAR as int);
    assert(STEEP * NEAR == 1180591620717411303424) by (nonlinear_arith);
    assert(m.raw == quotient_spec(s * p.x.raw, 65536));
    let offset = m.neg_spec().add_spec(p.y);
    let off = p.y.raw - m.raw;
    assert(offset.raw == off);
    // The length, and the line.
    let minus = Fixed::from_int_spec(-1);
    assert(minus.raw == -65536);
    lemma_length(slope);
    let div = slope.mul_spec(slope).add_spec(minus.mul_spec(minus)).sqrt_spec();
    let d = div.raw as int;
    let line = Line::new_spec(slope, minus, offset);
    assert(Line::between_spec(p, q) == line);
    lemma_normalized(s, d, STEEP as int);
    lemma_normalized(-65536, d, 65536);
    lemma_normalized(off, d, 36028797018963968);
    assert(-65536int * 65536 == -4294967296);
    assert(line.a.raw == quotient_spec(s * 65536, d));
    assert(line.b.raw == quotient_spec(-65536int * 65536, d));
    assert(line.c.raw == quotient_spec(off * 65536, d));
    let a = line.a.raw as int;
    let b = line.b.raw as int;
    let c = line.c.raw as int;
    // The first point.
    lemma_sized_product(a, p.x.raw as int, STEEP as int, NEAR as int);
    lemma_sized_product(b, p.y.raw as int, 65536, NEAR as int);
    let q1 = quotient_spec(a * p.x.raw, 65536);
    let q2 = quotient_spec(b * p.y.raw, 65536);
    assert(65536 * NEAR == 72057594037927936) by (nonlinear_arith);
    assert(line.signed_distance_to_spec(p).raw == q1 + q2 + c);
    lemma_distance(d, a, b, c, s, off, p.x.raw as int, p.y.raw as int, q1, q2, u);
    // The second point.
    lemma_sized_product(a, q.x.raw as int, STEEP as int, NEAR as int);
    lemma_sized_product(b, q.y.raw as int, 65536, NEAR as int);
    let q3 = quotient_spec(a * q.x.raw, 65536);
    let q4 = quotient_spec(b * q.y.raw, 65536);
    assert(line.signed_distance_to_spec(q).raw == q3 + q4 + c);
    let mdx = magnitude_spec(dx);
    lemma_mul_is_distributive_sub(s, q.x.raw as int, p.x.raw as int);
    lemma_mul_is_commutative(s, dx);
    assert(d * mdx >= 65536 * mdx) by (nonlinear_arith)
        requires
            d >= 65536,
            mdx >= 0,
    ;
    lemma_mul_is_distributive_add(d, mdx, u);
    lemma_distance(d, a, b, c, s, off, q.x.raw as int, q.y.raw as int, q3, q4, mdx + u);
}

/// Half of a scalar, rounded toward zero.
proof fn lemma_halved(x: Fixed)
    ensures
        -1 <= x.raw - 2 * (Fixed { raw: 32768 }).mul_spec(x).raw <= 1,
        x.raw >= 0 ==> 0 <= 2 * (Fixed { raw: 32768 }).mul_spec(x).raw <= x.raw,
        x.raw <= 0 ==> x.raw <= 2 * (Fixed { raw: 32768 }).mul_spec(x).raw <= 0,
{
    lemma_quotient_near(32768 * x.raw, 65536);
}

/// Twice the raw value of the point half way between two scalars misses
/// the sum of theirs by two at most.
proof fn lemma_half_way(a: Fixed, b: Fixed)
    ensures
        -2 <= 2 * lerp_spec(a, Fixed { raw: 32768 }, b).raw - (a.raw + b.raw) <= 2,
{
    lemma_halved(a);
    lemma_halved(b);
}

/// Eight times the midpoint of the subdivision at one half misses the blend
/// of the control points by twenty-four at most.
proof fn lemma_halving_blend(v: [Fixed; 4], w: [Fixed; 4], c: Cubic<Fixed>)
    requires
        c.x == v,
        c.y == w,
    ensures
        -24 <= 8 * c.split_spec(Fixed { raw: 32768 }).0.point_spec(3).x.raw - midpoint_blend_spec(v)
            <= 24,
        -24 <= 8 * c.split_spec(Fixed { raw: 32768 }).0.point_spec(3).y.raw - midpoint_blend_spec(w)
            <= 24,
{
    let h = Fixed { raw: 32768 };
    lemma_half_way(v[0], v[1]);
    lemma_half_way(v[1], v[2]);
    lemma_half_way(v[2], v[3]);
    let x01 = lerp_spec(v[0], h, v[1]);
    let x12 = lerp_spec(v[1], h, v[2]);
    let x23 = lerp_spec(v[2], h, v[3]);
    lemma_half_way(x01, x12);
    lemma_half_way(x12, x23);
    lemma_half_way(lerp_spec(x01, h, x12), lerp_spec(x12, h, x23));
    lemma_half_way(w[0], w[1]);
    lemma_half_way(w[1], w[2]);
    lemma_half_way(w[2], w[3]);
    let y01 = lerp_spec(w[0], h, w[1]);
    let y12 = lerp_spec(w[1], h, w[2]);
    let y23 = lerp_spec(w[2], h, w[3]);
    lemma_half_way(y01, y12);
    lemma_half_way(y12, y23);
    lemma_half_way(lerp_spec(y01, h, y12), lerp_spec(y12, h, y23));
}

/// The subdivision at one half meets the curve: the point where the two
/// parts join is the curve at one half up to rounding. On every curve the
/// two differ in each coordinate by six raw units at most, that is by less
/// than one ten-thousandth.
pub proof fn lemma_fixed_halving_meets(c: Cubic<Fixed>)
    ensures
        ({
            let half = ratio_spec::<Fixed>(1, 2);
            let joint = c.split_spec(half).0.point_spec(3);
            let on_curve = c.at_spec(half);
            &&& joint == c.split_spec(half).1.point_spec(0)
            &&& -6 <= joint.x.raw - on_curve.x.raw <= 6
            &&& -6 <= joint.y.raw - on_curve.y.raw <= 6
        }),
{
    lemma_half();
    lemma_fixed_midpoint(c);
    lemma_halving_blend(c.x, c.y, c);
}

/// A split keeps the ends of the curve: for a `t` strictly between zero and
/// one, the left part at zero is the curve at `0 * t`, and the right part at
/// one is the curve at `t + 1 * (1 - t)`, with no rounding.
pub proof fn lemma_fixed_split_ends(c: Cubic<Fixed>, t: Fixed)
    requires
        zero_spec::<Fixed>().lt_spec(t),
        t.lt_spec(one_spec::<Fixed>()),
    ensures
        c.split_spec(t).0.at_spec(zero_spec()) == c.at_spec(zero_spec::<Fixed>().mul_spec(t)),
        c.split_spec(t).1.at_spec(one_spec()) == c.at_spec(
            t.add_spec(one_spec::<Fixed>().mul_spec(one_spec::<Fixed>().sub_spec(t))),
        ),
{
    lemma_quotient_exact(0 * t.raw, 65536, 0);
    lemma_quotient_exact(65536 * (65536 - t.raw), 65536, 65536 - t.raw);
}

/// The value of the curve with the control coordinates `v` at `t / 65536`,
/// times the cube of 65536: the Bernstein form over the raw values, with
/// no rounding.
pub open spec fn bernstein_spec(v: [Fixed; 4], t: int) -> int {
    let s = 65536 - t;
    s * s * s * v[0].raw + 3 * (s * s * t * v[1].raw) + 3 * (s * t * t * v[2].raw) + t * t * t
        * v[3].raw
}

/// Whether `t` lies between zero and one, the ends included.
pub open spec fn within_unit_spec(t: Fixed) -> bool {
    0 <= t.raw <= 65536
}

/// A product with a weight between zero and one, rounded toward zero.
proof fn lemma_weighted(w: int, x: Fixed, reach: int)
    requires
        0 <= w <= 65536,
        -reach <= x.raw <= reach,
    ensures
        ({
            let q = (Fixed { raw: w as i64 }).mul_spec(x).raw;
            &&& -65536 < w * x.raw - 65536 * q < 65536
            &&& -(w * reach) <= 65536 * q <= w * reach
            &&& w * i64::MIN <= 65536 * q <= w * i64::MAX
        }),
{
    let n = w * x.raw;
    lemma_quotient_near(n, 65536);
    assert(w * i64::MIN <= n <= w * i64::MAX) by (nonlinear_arith)
        requires
            n == w * x.raw,
            0 <= w,
            i64::MIN <= x.raw <= i64::MAX,
    ;
    assert(w * i64::MIN <= 0 <= w * i64::MAX) by (nonlinear_arith)
        requires
            0 <= w,
    ;
    assert(65536 * i64::MIN <= w * i64::MIN && w * i64::MAX <= 65536 * i64::MAX)
        by (nonlinear_arith)
        requires
            0 <= w <= 65536,
    ;
    assert(-(w * reach) <= n <= w * reach) by (nonlinear_arith)
        requires
            n == w * x.raw,
            0 <= w,
            -reach <= x.raw <= reach,
    ;
    assert(w * reach <= 65536 * reach) by (nonlinear_arith)
        requires
            0 <= w <= 65536,
            0 <= reach,
    ;
}

/// The point at `t` between two scalars within `reach` of zero stays within
/// `reach`, and it misses the exact blend by less than two raw units.
proof fn lemma_between(a: Fixed, t: Fixed, b: Fixed, reach: int)
    requires
        -reach <= a.raw <= reach,
        -reach <= b.raw <= reach,
        within_unit_spec(t),
    ensures
        -reach <= lerp_spec(a, t, b).raw <= reach,
        -2 * 65536 < 65536 * lerp_spec(a, t, b).raw - ((65536 - t.raw) * a.raw + t.raw * b.raw) < 2
            * 65536,
{
    lemma_weighted(65536 - t.raw, a, reach);
    lemma_weighted(t.raw as int, b, reach);
    let s = 65536 - t.raw;
    assert(s * reach + t.raw * reach == 65536 * reach) by (nonlinear_arith)
        requires
            s == 65536 - t.raw,
    ;
    assert(s * i64::MAX + t.raw * i64::MAX == 65536 * i64::MAX && s * i64::MIN + t.raw * i64::MIN
        == 65536 * i64::MIN) by (nonlinear_arith)
        requires
            s == 65536 - t.raw,
    ;
    assert(one_spec::<Fixed>().sub_spec(t) == (Fixed { raw: s as i64 }));
}

/// One round of interpolation carries the rounding on: where `l` is the
/// rounded point between `p1` and `p2`, and `p1`, `p2` at the scale `s` miss
/// the exact `x1`, `x2` by `bound` at most, `l` at the scale `65536 * s`
/// misses the exact blend by `65536 * bound + 2 * 65536 * s` at most.
proof fn lemma_round(t: int, s: int, p1: int, p2: int, l: int, x1: int, x2: int, bound: int)
    requires
        0 <= t <= 65536,
        s > 0,
        bound >= 0,
        -2 * 65536 < 65536 * l - ((65536 - t) * p1 + t * p2) < 2 * 65536,
        -bound <= s * p1 - x1 <= bound,
        -bound <= s * p2 - x2 <= bound,
    ensures
        -(65536 * bound + 2 * 65536 * s) <= (65536 * s) * l - ((65536 - t) * x1 + t * x2) <= 65536
            * bound + 2 * 65536 * s,
{
    let v = 65536 - t;
    let e = 65536 * l - (v * p1 + t * p2);
    let d1 = s * p1 - x1;
    let d2 = s * p2 - x2;
    // `(65536 * s) * l` is `s * (v * p1 + t * p2 + e)`.
    lemma_mul_is_commutative(s, 65536);
    lemma_mul_is_associative(s, 65536, l);
    lemma_mul_is_distributive_add(s, v * p1 + t * p2, e);
    lemma_mul_is_distributive_add(s, v * p1, t * p2);
    // `s * (v * p1)` is `v * (x1 + d1)`, and the same for `t`.
    lemma_swap(s, v, p1);
    lemma_swap(s, t, p2);
    lemma_mul_is_distributive_add(v, x1, d1);
    lemma_mul_is_distributive_add(t, x2, d2);
    assert((65536 * s) * l - (v * x1 + t * x2) == v * d1 + t * d2 + s * e);
    assert(-(v * bound) <= v * d1 <= v * bound) by (nonlinear_arith)
        requires
            v >= 0,
            -bound <= d1 <= bound,
    ;
    assert(-(t * bound) <= t * d2 <= t * bound) by (nonlinear_arith)
        requires
            t >= 0,
            -bound <= d2 <= bound,
    ;
    assert(v * bound + t * bound == 65536 * bound) by (nonlinear_arith)
        requires
            v == 65536 - t,
    ;
    assert(-(2 * 65536 * s) <= s * e <= 2 * 65536 * s) by (nonlinear_arith)
        requires
            s > 0,
            -2 * 65536 < e < 2 * 65536,
    ;
}

/// The exact blends of three rounds of interpolation are the Bernstein
/// form.
proof fn lemma_rounds_are_bernstein(v: [Fixed; 4], t: int)
    ensures
        ({
            let s = 65536 - t;
            let x01 = s * v[0].raw + t * v[1].raw;
            let x12 = s * v[1].raw + t * v[2].raw;
            let x23 = s * v[2].raw + t * v[3].raw;
            s * (s * x01 + t * x12) + t * (s * x12 + t * x23) == bernstein_spec(v, t)
        }),
{
    let s = 65536 - t;
    let a = v[0].raw as int;
    let b = v[1].raw as int;
    let c = v[2].raw as int;
    let d = v[3].raw as int;
    let ss = s * s;
    let st = s * t;
    let tt = t * t;
    lemma_mul_is_commutative(t, s);
    // The second round.
    lemma_spread(s, s, a, t, b);
    lemma_spread(t, s, b, t, c);
    lemma_spread(s, s, b, t, c);
    lemma_spread(t, s, c, t, d);
    let p = s * (s * a + t * b) + t * (s * b + t * c);
    let q = s * (s * b + t * c) + t * (s * c + t * d);
    assert(p == (ss * a + st * b) + (st * b + tt * c));
    assert(q == (ss * b + st * c) + (st * c + tt * d));
    // The third round.
    lemma_mul_is_distributive_add(s, ss * a + st * b, st * b + tt * c);
    lemma_mul_is_distributive_add(t, ss * b + st * c, st * c + tt * d);
    lemma_spread(s, ss, a, st, b);
    lemma_spread(s, st, b, tt, c);
    lemma_spread(t, ss, b, st, c);
    lemma_spread(t, st, c, tt, d);
    // The products of three.
    lemma_mul_is_commutative(s, ss);
    lemma_mul_is_associative(s, s, t);
    lemma_mul_is_commutative(t, ss);
    lemma_mul_is_associative(s, t, t);
    lemma_mul_is_commutative(t, st);
    lemma_mul_is_commutative(t, tt);
}

/// The exact point at `t / 65536` between `a` and `b`, times 65536.
pub open spec fn first_blend_spec(a: int, b: int, t: int) -> int {
    (65536 - t) * a + t * b
}

/// The exact point of the second round of interpolation over `a`, `b` and
/// `c`, times the square of 65536.
pub open spec fn second_blend_spec(a: int, b: int, c: int, t: int) -> int {
    (65536 - t) * first_blend_spec(a, b, t) + t * first_blend_spec(b, c, t)
}

/// Whether `left` and `right` are, up to rounding, the coordinates of the
/// two parts of the curve with the coordinates `v` cut at `t / 65536`. The
/// outer ends are those of the curve. Each other coordinate is held against
/// the exact point of its round of interpolation, at the scale of that
/// round: it misses by two raw units at most after one round, by four after
/// two, and the joint, which is the exact curve at the cut, by six.
pub open spec fn split_near_spec(v: [Fixed; 4], left: [Fixed; 4], right: [Fixed; 4], t: int) -> bool {
    let u: int = 65536;
    let (a, b, c, d) = (v[0].raw as int, v[1].raw as int, v[2].raw as int, v[3].raw as int);
    &&& left[0] == v[0]
    &&& near_spec(u * left[1].raw, first_blend_spec(a, b, t), 2 * u)
    &&& near_spec(u * u * left[2].raw, second_blend_spec(a, b, c, t), 4 * u * u)
    &&& near_spec(u * u * u * left[3].raw, bernstein_spec(v, t), 6 * u * u * u)
    &&& right[0] == left[3]
    &&& near_spec(u * u * right[1].raw, second_blend_spec(b, c, d, t), 4 * u * u)
    &&& near_spec(u * right[2].raw, first_blend_spec(c, d, t), 2 * u)
    &&& right[3] == v[3]
}

/// Three rounds of interpolation over coordinates within `reach` of zero,
/// with their rounding.
proof fn lemma_split_coordinate(v: [Fixed; 4], t: Fixed, reach: int)
    requires
        bounded_spec(v, reach),
        within_unit_spec(t),
    ensures
        ({
            let l01 = lerp_spec(v[0], t, v[1]);
            let l12 = lerp_spec(v[1], t, v[2]);
            let l23 = lerp_spec(v[2], t, v[3]);
            let m1 = lerp_spec(l01, t, l12);
            let m2 = lerp_spec(l12, t, l23);
            let joint = lerp_spec(m1, t, m2);
            &&& split_near_spec(v, [v[0], l01, m1, joint], [joint, m2, l23, v[3]], t.raw as int)
            &&& bounded_spec([v[0], l01, m1, joint], reach)
            &&& bounded_spec([joint, m2, l23, v[3]], reach)
        }),
{
    let u = 65536int;
    let tt = t.raw as int;
    let s = u - tt;
    assert(-reach <= v[0].raw <= reach && -reach <= v[1].raw <= reach);
    assert(-reach <= v[2].raw <= reach && -reach <= v[3].raw <= reach);
    let l01 = lerp_spec(v[0], t, v[1]);
    let l12 = lerp_spec(v[1], t, v[2]);
    let l23 = lerp_spec(v[2], t, v[3]);
    lemma_between(v[0], t, v[1], reach);
    lemma_between(v[1], t, v[2], reach);
    lemma_between(v[2], t, v[3], reach);
    let x01 = s * v[0].raw + tt * v[1].raw;
    let x12 = s * v[1].raw + tt * v[2].raw;
    let x23 = s * v[2].raw + tt * v[3].raw;
    let m1 = lerp_spec(l01, t, l12);
    let m2 = lerp_spec(l12, t, l23);
    lemma_between(l01, t, l12, reach);
    lemma_between(l12, t, l23, reach);
    lemma_round(tt, u, l01.raw as int, l12.raw as int, m1.raw as int, x01, x12, 2 * u);
    lemma_round(tt, u, l12.raw as int, l23.raw as int, m2.raw as int, x12, x23, 2 * u);
    let y1 = s * x01 + tt * x12;
    let y2 = s * x12 + tt * x23;
    let joint = lerp_spec(m1, t, m2);
    lemma_between(m1, t, m2, reach);
    assert(u * u == 4294967296) by (nonlinear_arith)
        requires
            u == 65536,
    ;
    lemma_round(tt, u * u, m1.raw as int, m2.raw as int, joint.raw as int, y1, y2, 4 * (u * u));
    lemma_rounds_are_bernstein(v, tt);
    let left = [v[0], l01, m1, joint];
    let right = [joint, m2, l23, v[3]];
    assert(left[0] == v[0] && left[1] == l01 && left[2] == m1 && left[3] == joint);
    assert(right[0] == joint && right[1] == m2 && right[2] == l23 && right[3] == v[3]);
    assert forall|i: int| 0 <= i < 4 implies -reach <= (#[trigger] left[i]).raw <= reach by {}
    assert forall|i: int| 0 <= i < 4 implies -reach <= (#[trigger] right[i]).raw <= reach by {}
}

/// A split on the fixed-point scalar is the subdivision of the exact curve,
/// up to rounding. For a `t` from zero to one the control points of the two
/// parts miss the points of the exact subdivision by six raw units at most,
/// whatever the size of the curve; in particular the point where the parts
/// join misses the exact curve at `t` by no more than six raw units. Where
/// the raw coordinates of the curve stay within `reach` of zero, so do those
/// of the parts.
pub proof fn lemma_fixed_split_is_near(c: Cubic<Fixed>, t: Fixed, reach: int)
    requires
        bounded_spec(c.x, reach),
        bounded_spec(c.y, reach),
        within_unit_spec(t),
    ensures
        split_near_spec(c.x, c.split_spec(t).0.x, c.split_spec(t).1.x, t.raw as int),
        split_near_spec(c.y, c.split_spec(t).0.y, c.split_spec(t).1.y, t.raw as int),
        bounded_spec(c.split_spec(t).0.x, reach),
        bounded_spec(c.split_spec(t).0.y, reach),
        bounded_spec(c.split_spec(t).1.x, reach),
        bounded_spec(c.split_spec(t).1.y, reach),
{
    lemma_split_coordinate(c.x, t, reach);
    lemma_split_coordinate(c.y, t, reach);
}

/// The square and the cube of a `t` from zero to one, rounded toward zero.
proof fn lemma_powers_of(t: Fixed)
    requires
        within_unit_spec(t),
    ensures
        ({
            let t2 = t.mul_spec(t);
            let t3 = t2.mul_spec(t);
            &&& 0 <= t3.raw <= t2.raw <= t.raw
            &&& 0 <= t.raw * t.raw - 65536 * t2.raw < 65536
            &&& 0 <= t2.raw * t.raw - 65536 * t3.raw < 65536
        }),
{
    let tt = t.raw as int;
    assert(0 <= tt * tt <= 65536 * tt) by (nonlinear_arith)
        requires
            0 <= tt <= 65536,
    ;
    lemma_quotient_near(tt * tt, 65536);
    let t2 = t.mul_spec(t);
    let q = t2.raw as int;
    assert(0 <= q <= tt);
    assert(0 <= q * tt <= 65536 * q) by (nonlinear_arith)
        requires
            0 <= tt <= 65536,
            0 <= q,
    ;
    lemma_quotient_near(q * tt, 65536);
}

/// A whole multiple of a scalar from zero to one, with no rounding.
proof fn lemma_whole_multiple(z: Fixed, k: int)
    requires
        within_unit_spec(z),
        -8 <= k <= 8,
    ensures
        z.mul_spec(Fixed::from_int_spec(k)).raw == k * z.raw,
{
    let x = z.raw as int;
    lemma_mul_is_commutative(k, 65536);
    lemma_swap(x, 65536, k);
    lemma_mul_is_commutative(x, k);
    assert(-8 * 65536 <= k * x <= 8 * 65536) by (nonlinear_arith)
        requires
            0 <= x <= 65536,
            -8 <= k <= 8,
    ;
    lemma_quotient_exact(x * (k * 65536), 65536, k * x);
}

/// The weights of the power form at a `t` from zero to one: the row of the
/// powers of `t` times the basis matrix.
proof fn lemma_weights_of(t: Fixed)
    requires
        within_unit_spec(t),
    ensures
        ({
            let t2 = t.mul_spec(t);
            let t3 = t2.mul_spec(t);
            let row = Mat1x4 { r0: Float4 { a: one_spec::<Fixed>(), b: t, c: t2, d: t3 } };
            let w = row.mul_4x4_spec(Cubic::<Fixed>::basis_spec()).r0;
            &&& w.a.raw == 65536 - 3 * t.raw + 3 * t2.raw - t3.raw
            &&& w.b.raw == 3 * t.raw - 6 * t2.raw + 3 * t3.raw
            &&& w.c.raw == 3 * t2.raw - 3 * t3.raw
            &&& w.d.raw == t3.raw
        }),
{
    lemma_powers_of(t);
    let t2 = t.mul_spec(t);
    let t3 = t2.mul_spec(t);
    let one = one_spec::<Fixed>();
    assert(one == (Fixed { raw: 65536 }));
    lemma_whole_multiple(one, 1);
    lemma_whole_multiple(one, 0);
    lemma_whole_multiple(t, -3);
    lemma_whole_multiple(t, 3);
    lemma_whole_multiple(t, 0);
    lemma_whole_multiple(t2, 3);
    lemma_whole_multiple(t2, -6);
    lemma_whole_multiple(t2, 0);
    lemma_whole_multiple(t3, -1);
    lemma_whole_multiple(t3, 3);
    lemma_whole_multiple(t3, -3);
    lemma_whole_multiple(t3, 1);
}

/// The rounded weights of the power form against the exact ones, at the
/// scale of the square of 65536.
proof fn lemma_weight_errors(t: int, t2: int, t3: int)
    requires
        0 <= t <= 65536,
        0 <= t * t - 65536 * t2 < 65536,
        0 <= t2 * t - 65536 * t3 < 65536,
    ensures
        ({
            let s = 65536 - t;
            let square: int = 4294967296;
            &&& near_spec(square * (65536 - 3 * t + 3 * t2 - t3), s * s * s, 3 * square)
            &&& near_spec(square * (3 * t - 6 * t2 + 3 * t3), 3 * (s * s * t), 6 * square)
            &&& near_spec(square * (3 * t2 - 3 * t3), 3 * (s * t * t), 3 * square)
            &&& near_spec(square * t3, t * t * t, 2 * square)
        }),
{
    let u = 65536int;
    let s = u - t;
    let tt = t * t;
    let ttt = tt * t;
    let e1 = tt - u * t2;
    let e2 = t2 * t - u * t3;
    // `t * e1`, spread out and bounded.
    lemma_mul_is_distributive_sub(t, tt, u * t2);
    lemma_mul_is_commutative(t, tt);
    lemma_swap(t, u, t2);
    lemma_mul_is_commutative(t, t2);
    assert(t * e1 == ttt - u * (t2 * t));
    assert(0 <= t * e1 <= u * e1) by (nonlinear_arith)
        requires
            0 <= t <= u,
            0 <= e1,
    ;
    // The exact weights, spread out.
    lemma_mul_is_distributive_sub(s, u, t);
    lemma_mul_is_distributive_sub_other_way(t, u, t);
    assert(s * s == u * u - 2 * (u * t) + tt);
    assert(s * t == u * t - tt);
    lemma_mul_is_distributive_sub_other_way(t, u * t, tt);
    lemma_mul_is_associative(u, t, t);
    assert(s * t * t == u * tt - ttt);
    let ss = s * s;
    lemma_mul_is_distributive_add_other_way(t, u * u - 2 * (u * t), tt);
    lemma_mul_is_distributive_sub_other_way(t, u * u, 2 * (u * t));
    lemma_mul_is_associative(2, u * t, t);
    assert(ss * t == u * u * t - 2 * (u * tt) + ttt);
    lemma_mul_is_distributive_sub(ss, u, t);
    assert(ss * s == ss * u - ss * t);
    assert(u * u == 4294967296) by (nonlinear_arith)
        requires
            u == 65536,
    ;
}

/// One product of the power form against its exact term. Where the weight
/// `w` at the scale of the square of 65536 misses `k * base` by `slack`
/// squares at most, and `q` is the rounded product of `w` and `x`, `q` at
/// the scale of the cube misses `k * (base * x)` by `slack * reach` squares
/// and one cube at most.
proof fn lemma_term(w: int, x: int, q: int, base: int, k: int, slack: int, reach: int)
    requires
        near_spec(4294967296 * w, k * base, slack * 4294967296),
        slack >= 0,
        -reach <= x <= reach,
        -65536 < w * x - 65536 * q < 65536,
    ensures
        near_spec(
            281474976710656 * q,
            k * (base * x),
            4294967296 * (slack * reach) + 281474976710656,
        ),
{
    let square = 4294967296int;
    let rho = w * x - 65536 * q;
    let delta = square * w - k * base;
    lemma_mul_is_associative(square, w, x);
    lemma_mul_is_distributive_add_other_way(x, k * base, delta);
    lemma_mul_is_associative(k, base, x);
    assert(square * (w * x) == k * (base * x) + delta * x);
    assert(-(slack * square * reach) <= delta * x <= slack * square * reach) by (nonlinear_arith)
        requires
            -(slack * square) <= delta <= slack * square,
            -reach <= x <= reach,
            slack >= 0,
    ;
    lemma_mul_is_associative(slack, square, reach);
    lemma_swap(slack, square, reach);
    assert(slack * square * reach == square * (slack * reach));
    let cube = 281474976710656int;
    assert(cube * q == square * (w * x) - square * rho);
    assert(-cube < square * rho < cube);
}

/// The product of a weight of the power form and a moderate scalar: it is
/// rounded by less than one raw unit and does not saturate.
proof fn lemma_product(w: Fixed, x: Fixed)
    requires
        -12 * 65536 <= w.raw <= 12 * 65536,
        -MODERATE <= x.raw <= MODERATE,
    ensures
        -65536 < w.raw * x.raw - 65536 * w.mul_spec(x).raw < 65536,
        -12 * MODERATE <= w.mul_spec(x).raw <= 12 * MODERATE,
{
    let n = w.raw * x.raw;
    lemma_quotient_near(n, 65536);
    assert(-(12 * 65536 * MODERATE) <= n <= 12 * 65536 * MODERATE) by (nonlinear_arith)
        requires
            n == w.raw * x.raw,
            -12 * 65536 <= w.raw <= 12 * 65536,
            -MODERATE <= x.raw <= MODERATE,
    ;
}

/// The power form in one coordinate: the weights at `t` times the
/// coordinates, summed.
proof fn lemma_power_coordinate(v: [Fixed; 4], t: Fixed, reach: int)
    requires
        within_unit_spec(t),
        0 <= reach <= MODERATE,
        bounded_spec(v, reach),
    ensures
        ({
            let t2 = t.mul_spec(t);
            let t3 = t2.mul_spec(t);
            let row = Mat1x4 { r0: Float4 { a: one_spec::<Fixed>(), b: t, c: t2, d: t3 } };
            let w = row.mul_4x4_spec(Cubic::<Fixed>::basis_spec()).r0;
            let sum = w.mul_spec(Float4::from_array_spec(v)).horizontal_sum_spec();
            near_spec(
                281474976710656 * sum.raw,
                bernstein_spec(v, t.raw as int),
                4294967296 * (14 * reach) + 4 * 281474976710656,
            )
        }),
{
    let t2 = t.mul_spec(t);
    let t3 = t2.mul_spec(t);
    let row = Mat1x4 { r0: Float4 { a: one_spec::<Fixed>(), b: t, c: t2, d: t3 } };
    let w = row.mul_4x4_spec(Cubic::<Fixed>::basis_spec()).r0;
    let tt = t.raw as int;
    let s = 65536 - tt;
    lemma_powers_of(t);
    lemma_weights_of(t);
    lemma_weight_errors(tt, t2.raw as int, t3.raw as int);
    assert(-reach <= v[0].raw <= reach && -reach <= v[1].raw <= reach);
    assert(-reach <= v[2].raw <= reach && -reach <= v[3].raw <= reach);
    lemma_product(w.a, v[0]);
    lemma_product(w.b, v[1]);
    lemma_product(w.c, v[2]);
    lemma_product(w.d, v[3]);
    let q0 = w.a.mul_spec(v[0]).raw as int;
    let q1 = w.b.mul_spec(v[1]).raw as int;
    let q2 = w.c.mul_spec(v[2]).raw as int;
    let q3 = w.d.mul_spec(v[3]).raw as int;
    lemma_term(w.a.raw as int, v[0].raw as int, q0, s * s * s, 1, 3, reach);
    lemma_term(w.b.raw as int, v[1].raw as int, q1, s * s * tt, 3, 6, reach);
    lemma_term(w.c.raw as int, v[2].raw as int, q2, s * tt * tt, 3, 3, reach);
    lemma_term(w.d.raw as int, v[3].raw as int, q3, tt * tt * tt, 1, 2, reach);
    let sum = w.mul_spec(Float4::from_array_spec(v)).horizontal_sum_spec();
    assert(sum.raw == (q2 + q0) + (q3 + q1));
}

/// The curve on the fixed-point scalar is the exact curve, up to rounding.
/// For a `t` from zero to one and a curve whose raw coordinates stay within
/// `reach` of zero, each coordinate of the curve at `t` misses the exact
/// Bernstein form by `14 * reach / 65536 + 4` raw units at most: fourteen
/// raw units for each whole unit of the largest coordinate, and four more.
/// At zero and at one nothing is rounded.
pub proof fn lemma_fixed_at_is_near(c: Cubic<Fixed>, t: Fixed, reach: int)
    requires
        within_unit_spec(t),
        0 <= reach <= MODERATE,
        bounded_spec(c.x, reach),
        bounded_spec(c.y, reach),
    ensures
        near_spec(
            281474976710656 * c.at_spec(t).x.raw,
            bernstein_spec(c.x, t.raw as int),
            4294967296 * (14 * reach) + 4 * 281474976710656,
        ),
        near_spec(
            281474976710656 * c.at_spec(t).y.raw,
            bernstein_spec(c.y, t.raw as int),
            4294967296 * (14 * reach) + 4 * 281474976710656,
        ),
        t.raw == 0 || t.raw == 65536 ==> 281474976710656 * c.at_spec(t).x.raw == bernstein_spec(
            c.x,
            t.raw as int,
        ) && 281474976710656 * c.at_spec(t).y.raw == bernstein_spec(c.y, t.raw as int),
{
    assert(one_spec::<Fixed>() == (Fixed { raw: 65536 }));
    assert(zero_spec::<Fixed>() == (Fixed { raw: 0 }));
    if t.raw == 0 {
        lemma_bernstein_ends(c.x);
        lemma_bernstein_ends(c.y);
    } else if t.raw == 65536 {
        lemma_bernstein_ends(c.x);
        lemma_bernstein_ends(c.y);
    } else {
        lemma_power_coordinate(c.x, t, reach);
        lemma_power_coordinate(c.y, t, reach);
    }
}

/// At its ends the Bernstein form is the first and the last coordinate.
proof fn lemma_bernstein_ends(v: [Fixed; 4])
    ensures
        bernstein_spec(v, 0) == 281474976710656 * v[0].raw,
        bernstein_spec(v, 65536) == 281474976710656 * v[3].raw,
{
    assert(65536int * 65536 * 65536 == 281474976710656) by (nonlinear_arith);
    assert(0int * 0 * 0 == 0 && 65536int * 65536 * 0 == 0 && 65536int * 0 * 0 == 0)
        by (nonlinear_arith);
    assert(0int * 0 * 65536 == 0 && 0int * 65536 * 65536 == 0) by (nonlinear_arith);
    let a = v[1].raw as int;
    let b = v[2].raw as int;
    assert(0 * a == 0 && 0 * b == 0 && 0 * v[0].raw == 0 && 0 * v[3].raw == 0);
}

/// The joint of a split lies on the curve, up to rounding: for a `t` from
/// zero to one and raw coordinates within `reach` of zero, the point where
/// the two parts join misses the curve at `t` by `14 * reach / 65536 + 10`
/// raw units at most in each coordinate.
pub proof fn lemma_fixed_split_meets(c: Cubic<Fixed>, t: Fixed, reach: int)
    requires
        within_unit_spec(t),
        0 <= reach <= MODERATE,
        bounded_spec(c.x, reach),
        bounded_spec(c.y, reach),
    ensures
        ({
            let joint = c.split_spec(t).0.point_spec(3);
            let on_curve = c.at_spec(t);
            &&& joint == c.split_spec(t).1.point_spec(0)
            &&& near_spec(
                281474976710656 * joint.x.raw,
                281474976710656 * on_curve.x.raw,
                4294967296 * (14 * reach) + 10 * 281474976710656,
            )
            &&& near_spec(
                281474976710656 * joint.y.raw,
                281474976710656 * on_curve.y.raw,
                4294967296 * (14 * reach) + 10 * 281474976710656,
            )
        }),
{
    lemma_fixed_split_is_near(c, t, reach);
    lemma_fixed_at_is_near(c, t, reach);
}


/// The Bernstein form is three rounds of blending.
proof fn lemma_bernstein_is_blend3(v: [Fixed; 4], t: int)
    ensures
        bernstein_spec(v, t) == blend3_spec(
            65536 - t,
            t,
            v[0].raw as int,
            v[1].raw as int,
            v[2].raw as int,
            v[3].raw as int,
        ),
{
    lemma_rounds_are_bernstein(v, t);
}

/// A part of a split against the curve, one coordinate. `along` is the
/// rounded value of the part at `s`, and `across` that of the curve at `r`.
/// `exact` holds the exact control values of the part, at the scale of the
/// cube of 65536; blended at `s` they are the curve blended with the
/// weights `p` and `q`, which `e` shifts to the weights of `r`.
proof fn lemma_part_coordinate(
    v: [Fixed; 4],
    part: [Fixed; 4],
    s: int,
    r: int,
    reach: int,
    along: int,
    across: int,
    exact: (int, int, int, int),
    p: int,
    q: int,
    e: int,
)
    requires
        0 <= s <= 65536,
        0 <= reach,
        bounded_spec(v, reach),
        near_spec(281474976710656 * part[0].raw, exact.0, 1688849860263936),
        near_spec(281474976710656 * part[1].raw, exact.1, 1688849860263936),
        near_spec(281474976710656 * part[2].raw, exact.2, 1688849860263936),
        near_spec(281474976710656 * part[3].raw, exact.3, 1688849860263936),
        blend3_spec(65536 - s, s, exact.0, exact.1, exact.2, exact.3) == blend3_spec(
            p,
            q,
            v[0].raw as int,
            v[1].raw as int,
            v[2].raw as int,
            v[3].raw as int,
        ),
        p >= 0,
        0 <= e <= q,
        e <= 65536,
        p + q == 4294967296,
        p + e == 65536 * (65536 - r),
        q - e == 65536 * r,
        near_spec(
            281474976710656 * along,
            bernstein_spec(part, s),
            4294967296 * (14 * reach) + 4 * 281474976710656,
        ),
        near_spec(
            281474976710656 * across,
            bernstein_spec(v, r),
            4294967296 * (14 * reach) + 4 * 281474976710656,
        ),
    ensures
        near_spec(65536 * along, 65536 * across, 34 * reach + 14 * 65536),
{
    let u = 65536int;
    let k = 281474976710656int;
    let x0 = v[0].raw as int;
    let x1 = v[1].raw as int;
    let x2 = v[2].raw as int;
    let x3 = v[3].raw as int;
    assert(-reach <= v[0].raw <= reach && -reach <= v[1].raw <= reach);
    assert(-reach <= v[2].raw <= reach && -reach <= v[3].raw <= reach);
    // The part at `s` against the exact part.
    lemma_bernstein_is_blend3(part, s);
    lemma_blend3_carries(
        u - s,
        s,
        k,
        part[0].raw as int,
        part[1].raw as int,
        part[2].raw as int,
        part[3].raw as int,
        exact.0,
        exact.1,
        exact.2,
        exact.3,
        1688849860263936,
    );
    // The exact curve with the weights `p` and `q` against the exact curve
    // at `r`.
    lemma_blend3_shifts(p, q, e, x0, x1, x2, x3, reach);
    assert(0 <= e * reach <= u * reach) by (nonlinear_arith)
        requires
            0 <= e <= u,
            reach >= 0,
    ;
    lemma_blend3_weights_scale(u - r, r, u, x0, x1, x2, x3);
    lemma_bernstein_is_blend3(v, r);
    assert(blend3_spec(p + e, q - e, x0, x1, x2, x3) == k * bernstein_spec(v, r));
}

/// The left part of a split against the curve, one coordinate.
proof fn lemma_left_coordinate(
    v: [Fixed; 4],
    left: [Fixed; 4],
    right: [Fixed; 4],
    t: int,
    s: int,
    r: int,
    reach: int,
    along: int,
    across: int,
)
    requires
        0 <= t <= 65536,
        0 <= s <= 65536,
        0 <= s * t - 65536 * r < 65536,
        0 <= r,
        bounded_spec(v, reach),
        split_near_spec(v, left, right, t),
        near_spec(
            281474976710656 * along,
            bernstein_spec(left, s),
            4294967296 * (14 * reach) + 4 * 281474976710656,
        ),
        near_spec(
            281474976710656 * across,
            bernstein_spec(v, r),
            4294967296 * (14 * reach) + 4 * 281474976710656,
        ),
    ensures
        near_spec(65536 * along, 65536 * across, 34 * reach + 14 * 65536),
{
    let u = 65536int;
    let w = u - s;
    let vv = u - t;
    let x0 = v[0].raw as int;
    let x1 = v[1].raw as int;
    let x2 = v[2].raw as int;
    let x3 = v[3].raw as int;
    assert(-reach <= v[0].raw <= reach);
    lemma_bernstein_is_blend3(v, t);
    let exact = (
        u * (u * (u * x0)),
        u * (u * blend_spec(vv, t, x0, x1)),
        u * blend2_spec(vv, t, x0, x1, x2),
        blend3_spec(vv, t, x0, x1, x2, x3),
    );
    lemma_left_subdivides(w, s, u, vv, t, x0, x1, x2, x3);
    let p = w * u + s * vv;
    let q = s * t;
    lemma_mul_is_distributive_sub(s, u, t);
    assert(p + q == 4294967296);
    assert(s * vv >= 0 && q >= 0) by (nonlinear_arith)
        requires
            s >= 0,
            vv >= 0,
            t >= 0,
            q == s * t,
    ;
    lemma_part_coordinate(v, left, s, r, reach, along, across, exact, p, q, q - u * r);
}

/// The right part of a split against the curve, one coordinate. `g` is the
/// rounded product of `s` and `1 - t`, and `t + g` the place on the curve.
proof fn lemma_right_coordinate(
    v: [Fixed; 4],
    left: [Fixed; 4],
    right: [Fixed; 4],
    t: int,
    s: int,
    g: int,
    reach: int,
    along: int,
    across: int,
)
    requires
        0 <= t <= 65536,
        0 <= s <= 65536,
        0 <= s * (65536 - t) - 65536 * g < 65536,
        0 <= g,
        bounded_spec(v, reach),
        split_near_spec(v, left, right, t),
        near_spec(
            281474976710656 * along,
            bernstein_spec(right, s),
            4294967296 * (14 * reach) + 4 * 281474976710656,
        ),
        near_spec(
            281474976710656 * across,
            bernstein_spec(v, t + g),
            4294967296 * (14 * reach) + 4 * 281474976710656,
        ),
    ensures
        near_spec(65536 * along, 65536 * across, 34 * reach + 14 * 65536),
{
    let u = 65536int;
    let w = u - s;
    let vv = u - t;
    let x0 = v[0].raw as int;
    let x1 = v[1].raw as int;
    let x2 = v[2].raw as int;
    let x3 = v[3].raw as int;
    assert(-reach <= v[0].raw <= reach);
    lemma_bernstein_is_blend3(v, t);
    let exact = (
        blend3_spec(vv, t, x0, x1, x2, x3),
        u * blend2_spec(vv, t, x1, x2, x3),
        u * (u * blend_spec(vv, t, x2, x3)),
        u * (u * (u * x3)),
    );
    lemma_right_subdivides(w, s, u, vv, t, x0, x1, x2, x3);
    let p = w * vv;
    let q = s * u + w * t;
    lemma_mul_is_distributive_sub(w, u, t);
    lemma_mul_is_distributive_sub(s, u, t);
    lemma_mul_is_distributive_sub_other_way(t, u, s);
    assert(p + q == 4294967296);
    assert(q == u * t + s * vv);
    assert(p >= 0) by (nonlinear_arith)
        requires
            w >= 0,
            vv >= 0,
            p == w * vv,
    ;
    lemma_part_coordinate(v, right, s, t + g, reach, along, across, exact, p, q, s * vv - u * g);
}

/// The product of two scalars from zero to one is such a scalar, rounded
/// toward zero by less than one raw unit.
proof fn lemma_unit_product(s: Fixed, t: Fixed)
    requires
        within_unit_spec(s),
        within_unit_spec(t),
    ensures
        within_unit_spec(s.mul_spec(t)),
        s.mul_spec(t).raw <= t.raw,
        0 <= s.raw * t.raw - 65536 * s.mul_spec(t).raw < 65536,
{
    let n = s.raw * t.raw;
    assert(0 <= n <= 65536 * t.raw) by (nonlinear_arith)
        requires
            n == s.raw * t.raw,
            0 <= s.raw <= 65536,
            0 <= t.raw,
    ;
    lemma_quotient_near(n, 65536);
}

/// The left part of a split traces the curve up to the cut. For `s` and
/// `t` from zero to one and raw coordinates within `reach` of zero, the
/// left part at `s` misses the curve at `s * t` by
/// `34 * reach / 65536 + 14` raw units at most in each coordinate.
pub proof fn lemma_fixed_split_traces_left(c: Cubic<Fixed>, t: Fixed, s: Fixed, reach: int)
    requires
        within_unit_spec(t),
        within_unit_spec(s),
        reach <= MODERATE,
        bounded_spec(c.x, reach),
        bounded_spec(c.y, reach),
    ensures
        ({
            let along = c.split_spec(t).0.at_spec(s);
            let across = c.at_spec(s.mul_spec(t));
            &&& near_spec(65536 * along.x.raw, 65536 * across.x.raw, 34 * reach + 14 * 65536)
            &&& near_spec(65536 * along.y.raw, 65536 * across.y.raw, 34 * reach + 14 * 65536)
        }),
{
    let part = c.split_spec(t).0;
    let r = s.mul_spec(t);
    assert(-reach <= c.x[0].raw <= reach);
    lemma_unit_product(s, t);
    lemma_fixed_split_is_near(c, t, reach);
    lemma_fixed_at_is_near(part, s, reach);
    lemma_fixed_at_is_near(c, r, reach);
    lemma_left_coordinate(
        c.x,
        part.x,
        c.split_spec(t).1.x,
        t.raw as int,
        s.raw as int,
        r.raw as int,
        reach,
        part.at_spec(s).x.raw as int,
        c.at_spec(r).x.raw as int,
    );
    lemma_left_coordinate(
        c.y,
        part.y,
        c.split_spec(t).1.y,
        t.raw as int,
        s.raw as int,
        r.raw as int,
        reach,
        part.at_spec(s).y.raw as int,
        c.at_spec(r).y.raw as int,
    );
}

/// The right part of a split traces the curve from the cut on. For `s` and
/// `t` from zero to one and raw coordinates within `reach` of zero, the
/// right part at `s` misses the curve at `t + s * (1 - t)` by
/// `34 * reach / 65536 + 14` raw units at most in each coordinate.
pub proof fn lemma_fixed_split_traces_right(c: Cubic<Fixed>, t: Fixed, s: Fixed, reach: int)
    requires
        within_unit_spec(t),
        within_unit_spec(s),
        reach <= MODERATE,
        bounded_spec(c.x, reach),
        bounded_spec(c.y, reach),
    ensures
        ({
            let along = c.split_spec(t).1.at_spec(s);
            let across = c.at_spec(t.add_spec(s.mul_spec(one_spec::<Fixed>().sub_spec(t))));
            &&& near_spec(65536 * along.x.raw, 65536 * across.x.raw, 34 * reach + 14 * 65536)
            &&& near_spec(65536 * along.y.raw, 65536 * across.y.raw, 34 * reach + 14 * 65536)
        }),
{
    let part = c.split_spec(t).1;
    let rest = one_spec::<Fixed>().sub_spec(t);
    assert(rest == (Fixed { raw: (65536 - t.raw) as i64 }));
    let g = s.mul_spec(rest);
    let r = t.add_spec(g);
    assert(-reach <= c.x[0].raw <= reach);
    lemma_unit_product(s, rest);
    assert(r.raw == t.raw + g.raw);
    lemma_fixed_split_is_near(c, t, reach);
    lemma_fixed_at_is_near(part, s, reach);
    lemma_fixed_at_is_near(c, r, reach);
    lemma_right_coordinate(
        c.x,
        c.split_spec(t).0.x,
        part.x,
        t.raw as int,
        s.raw as int,
        g.raw as int,
        reach,
        part.at_spec(s).x.raw as int,
        c.at_spec(r).x.raw as int,
    );
    lemma_right_coordinate(
        c.y,
        c.split_spec(t).0.y,
        part.y,
        t.raw as int,
        s.raw as int,
        g.raw as int,
        reach,
        part.at_spec(s).y.raw as int,
        c.at_spec(r).y.raw as int,
    );
}

} // verus!
