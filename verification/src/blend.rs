//! Blends over the integers: the algebra behind the subdivision of a
//! curve.
//!
//! A round of de Casteljau's construction blends neighbouring values with
//! two weights. Taken over the integers, with the weights kept apart from
//! their sum, the rounds are exact, and the facts that subdivision rests on
//! are identities: rounds with different weights can change places, and the
//! control values of a part, blended again, are the values of the whole
//! curve blended once with other weights.
use vstd::arithmetic::mul::{
    lemma_mul_is_associative, lemma_mul_is_commutative, lemma_mul_is_distributive_add,
    lemma_mul_is_distributive_add_other_way, lemma_mul_is_distributive_sub,
    lemma_mul_is_distributive_sub_other_way,
};
use vstd::prelude::*;

verus! {

/// Whether `value` misses `exact` by `bound` at most.
pub open spec fn near_spec(value: int, exact: int, bound: int) -> bool {
    -bound <= value - exact <= bound
}

/// The two outer factors of a product of three change places.
pub proof fn lemma_swap(k: int, m: int, x: int)
    ensures
        k * (m * x) == m * (k * x),
{
    lemma_mul_is_associative(k, m, x);
    lemma_mul_is_commutative(k, m);
    lemma_mul_is_associative(m, k, x);
}

/// A factor spread over a sum of two products.
pub proof fn lemma_spread(k: int, m: int, x: int, n: int, y: int)
    ensures
        k * (m * x + n * y) == (k * m) * x + (k * n) * y,
{
    lemma_mul_is_distributive_add(k, m * x, n * y);
    lemma_mul_is_associative(k, m, x);
    lemma_mul_is_associative(k, n, y);
}

/// The blend of `a` and `b` with the weights `p` and `q`.
pub open spec fn blend_spec(p: int, q: int, a: int, b: int) -> int {
    p * a + q * b
}

/// Two rounds of blending over three values.
pub open spec fn blend2_spec(p: int, q: int, a: int, b: int, c: int) -> int {
    blend_spec(p, q, blend_spec(p, q, a, b), blend_spec(p, q, b, c))
}

/// Three rounds of blending over four values.
pub open spec fn blend3_spec(p: int, q: int, a: int, b: int, c: int, d: int) -> int {
    blend_spec(p, q, blend2_spec(p, q, a, b, c), blend2_spec(p, q, b, c, d))
}

/// A blend of two multiples is the multiple of the blend.
pub proof fn lemma_blend_scales(p: int, q: int, k: int, a: int, b: int)
    ensures
        blend_spec(p, q, k * a, k * b) == k * blend_spec(p, q, a, b),
{
    lemma_swap(p, k, a);
    lemma_swap(q, k, b);
    lemma_mul_is_distributive_add(k, p * a, q * b);
}

/// A blend with multiplied weights is the multiple of the blend.
pub proof fn lemma_blend_weights_scale(p: int, q: int, k: int, a: int, b: int)
    ensures
        blend_spec(k * p, k * q, a, b) == k * blend_spec(p, q, a, b),
{
    lemma_mul_is_associative(k, p, a);
    lemma_mul_is_associative(k, q, b);
    lemma_mul_is_distributive_add(k, p * a, q * b);
}

/// Blends with two pairs of weights can be taken in either order.
pub proof fn lemma_blends_commute(p: int, q: int, v: int, t: int, a: int, b: int, c: int)
    ensures
        blend_spec(p, q, blend_spec(v, t, a, b), blend_spec(v, t, b, c)) == blend_spec(
            v,
            t,
            blend_spec(p, q, a, b),
            blend_spec(p, q, b, c),
        ),
{
    lemma_mul_is_distributive_add(p, v * a, t * b);
    lemma_mul_is_distributive_add(q, v * b, t * c);
    lemma_mul_is_distributive_add(v, p * a, q * b);
    lemma_mul_is_distributive_add(t, p * b, q * c);
    lemma_swap(p, v, a);
    lemma_swap(p, t, b);
    lemma_swap(q, v, b);
    lemma_swap(q, t, c);
}

/// A blend of the multiple `u * a` and the blend of `a` and `b` is a blend
/// of `a` and `b`.
pub proof fn lemma_blend_mixes(w: int, s: int, u: int, v: int, t: int, a: int, b: int)
    ensures
        blend_spec(w, s, u * a, blend_spec(v, t, a, b)) == blend_spec(w * u + s * v, s * t, a, b),
{
    lemma_mul_is_associative(w, u, a);
    lemma_mul_is_distributive_add(s, v * a, t * b);
    lemma_mul_is_associative(s, v, a);
    lemma_mul_is_associative(s, t, b);
    lemma_mul_is_distributive_add_other_way(a, w * u, s * v);
}

/// A blend with weights that are not negative keeps its arguments near:
/// where `k * a` misses `a2` and `k * b` misses `b2` by `bound` at most,
/// `k` times the blend of `a` and `b` misses the blend of `a2` and `b2` by
/// `(p + q) * bound` at most.
pub proof fn lemma_blend_carries(p: int, q: int, k: int, a: int, b: int, a2: int, b2: int, bound: int)
    requires
        p >= 0,
        q >= 0,
        near_spec(k * a, a2, bound),
        near_spec(k * b, b2, bound),
    ensures
        near_spec(k * blend_spec(p, q, a, b), blend_spec(p, q, a2, b2), (p + q) * bound),
{
    lemma_blend_scales(p, q, k, a, b);
    let da = k * a - a2;
    let db = k * b - b2;
    lemma_mul_is_distributive_sub(p, k * a, a2);
    lemma_mul_is_distributive_sub(q, k * b, b2);
    assert(-(p * bound) <= p * da <= p * bound) by (nonlinear_arith)
        requires
            p >= 0,
            -bound <= da <= bound,
    ;
    assert(-(q * bound) <= q * db <= q * bound) by (nonlinear_arith)
        requires
            q >= 0,
            -bound <= db <= bound,
    ;
    lemma_mul_is_distributive_add_other_way(bound, p, q);
}

/// A blend whose weights shift by `e` from the second to the first: where
/// `a2`, `b2` miss `a`, `b` by `drift` at most and stay within `size` of
/// zero, the shifted blend of `a2` and `b2` misses the blend of `a` and `b`
/// by `(p + q) * drift + 2 * e * size` at most, and stays within
/// `(p + q) * size` of zero.
pub proof fn lemma_blend_shifts(p: int, q: int, e: int, a: int, b: int, a2: int, b2: int, drift: int, size: int)
    requires
        p >= 0,
        0 <= e <= q,
        near_spec(a2, a, drift),
        near_spec(b2, b, drift),
        near_spec(a2, 0, size),
        near_spec(b2, 0, size),
    ensures
        near_spec(
            blend_spec(p + e, q - e, a2, b2),
            blend_spec(p, q, a, b),
            (p + q) * drift + 2 * (e * size),
        ),
        near_spec(blend_spec(p + e, q - e, a2, b2), 0, (p + q) * size),
{
    lemma_mul_is_distributive_add_other_way(a2, p, e);
    lemma_mul_is_distributive_sub_other_way(b2, q, e);
    lemma_blend_carries(p, q, 1, a2, b2, a, b, drift);
    assert(1 * a2 == a2 && 1 * b2 == b2);
    assert(1 * blend_spec(p, q, a2, b2) == blend_spec(p, q, a2, b2));
    assert(-(e * size) <= e * a2 <= e * size) by (nonlinear_arith)
        requires
            e >= 0,
            -size <= a2 <= size,
    ;
    assert(-(e * size) <= e * b2 <= e * size) by (nonlinear_arith)
        requires
            e >= 0,
            -size <= b2 <= size,
    ;
    let p2 = p + e;
    let q2 = q - e;
    assert(-(p2 * size) <= p2 * a2 <= p2 * size) by (nonlinear_arith)
        requires
            p2 >= 0,
            -size <= a2 <= size,
    ;
    assert(-(q2 * size) <= q2 * b2 <= q2 * size) by (nonlinear_arith)
        requires
            q2 >= 0,
            -size <= b2 <= size,
    ;
    lemma_mul_is_distributive_add_other_way(size, p2, q2);
}

/// The left part of an exact subdivision traces the curve. The control
/// values of the part of a curve up to `t / u`, each at the scale of the
/// cube of `u`, blended with the weights `w` and `s`, are the values of the
/// curve itself blended with the weights `w * u + s * v` and `s * t`.
pub proof fn lemma_left_subdivides(w: int, s: int, u: int, v: int, t: int, x0: int, x1: int, x2: int, x3: int)
    ensures
        ({
            let l1 = blend_spec(v, t, x0, x1);
            let l2 = blend2_spec(v, t, x0, x1, x2);
            let l3 = blend3_spec(v, t, x0, x1, x2, x3);
            blend3_spec(w, s, u * (u * (u * x0)), u * (u * l1), u * l2, l3) == blend3_spec(
                w * u + s * v,
                s * t,
                x0,
                x1,
                x2,
                x3,
            )
        }),
{
    let p = w * u + s * v;
    let q = s * t;
    let y0 = blend_spec(p, q, x0, x1);
    let y1 = blend_spec(p, q, x1, x2);
    let y2 = blend_spec(p, q, x2, x3);
    let m01 = blend_spec(v, t, x0, x1);
    let m12 = blend_spec(v, t, x1, x2);
    let m23 = blend_spec(v, t, x2, x3);
    let n0 = blend_spec(v, t, m01, m12);
    let n1 = blend_spec(v, t, m12, m23);
    let l3 = blend_spec(v, t, n0, n1);
    let g0 = blend_spec(v, t, y0, y1);
    let g1 = blend_spec(v, t, y1, y2);
    let z0 = blend_spec(p, q, y0, y1);
    let z1 = blend_spec(p, q, y1, y2);
    // The first round.
    let a0 = blend_spec(w, s, u * (u * (u * x0)), u * (u * m01));
    let a1 = blend_spec(w, s, u * (u * m01), u * n0);
    let a2 = blend_spec(w, s, u * n0, l3);
    assert(a0 == u * (u * y0)) by {
        lemma_blend_scales(w, s, u, u * (u * x0), u * m01);
        lemma_blend_scales(w, s, u, u * x0, m01);
        lemma_blend_mixes(w, s, u, v, t, x0, x1);
    }
    assert(blend_spec(p, q, m01, m12) == g0) by {
        lemma_blends_commute(p, q, v, t, x0, x1, x2);
    }
    assert(blend_spec(p, q, m12, m23) == g1) by {
        lemma_blends_commute(p, q, v, t, x1, x2, x3);
    }
    assert(a1 == u * g0) by {
        lemma_blend_scales(w, s, u, u * m01, n0);
        lemma_blend_mixes(w, s, u, v, t, m01, m12);
    }
    assert(a2 == blend_spec(v, t, g0, g1)) by {
        lemma_blend_mixes(w, s, u, v, t, n0, n1);
        lemma_blends_commute(p, q, v, t, m01, m12, m23);
    }
    // The second round.
    let b0 = blend_spec(w, s, a0, a1);
    let b1 = blend_spec(w, s, a1, a2);
    assert(b0 == u * z0) by {
        lemma_blend_scales(w, s, u, u * y0, g0);
        lemma_blend_mixes(w, s, u, v, t, y0, y1);
    }
    assert(b1 == blend_spec(v, t, z0, z1)) by {
        lemma_blend_mixes(w, s, u, v, t, g0, g1);
        lemma_blends_commute(p, q, v, t, y0, y1, y2);
    }
    // The third round.
    assert(blend_spec(w, s, b0, b1) == blend_spec(p, q, z0, z1)) by {
        lemma_blend_mixes(w, s, u, v, t, z0, z1);
    }
}

/// Three rounds of blending with multiplied weights are the cube of the
/// multiple times the three rounds.
pub proof fn lemma_blend3_weights_scale(p: int, q: int, k: int, a: int, b: int, c: int, d: int)
    ensures
        blend3_spec(k * p, k * q, a, b, c, d) == k * (k * (k * blend3_spec(p, q, a, b, c, d))),
{
    let y0 = blend_spec(p, q, a, b);
    let y1 = blend_spec(p, q, b, c);
    let y2 = blend_spec(p, q, c, d);
    lemma_blend_weights_scale(p, q, k, a, b);
    lemma_blend_weights_scale(p, q, k, b, c);
    lemma_blend_weights_scale(p, q, k, c, d);
    let z0 = blend_spec(p, q, y0, y1);
    let z1 = blend_spec(p, q, y1, y2);
    lemma_blend_weights_scale(p, q, k, k * y0, k * y1);
    lemma_blend_scales(p, q, k, y0, y1);
    lemma_blend_weights_scale(p, q, k, k * y1, k * y2);
    lemma_blend_scales(p, q, k, y1, y2);
    assert(blend2_spec(k * p, k * q, a, b, c) == k * (k * z0));
    assert(blend2_spec(k * p, k * q, b, c, d) == k * (k * z1));
    lemma_blend_weights_scale(p, q, k, k * (k * z0), k * (k * z1));
    lemma_blend_scales(p, q, k, k * z0, k * z1);
    lemma_blend_scales(p, q, k, z0, z1);
}

/// Three rounds of blending whose weights shift by `e`: over values within
/// `reach` of zero and weights that add up to the square of 65536, the
/// result moves by `6 * e * reach` at the scale of the fourth power at
/// most.
pub proof fn lemma_blend3_shifts(p: int, q: int, e: int, a: int, b: int, c: int, d: int, reach: int)
    requires
        p >= 0,
        0 <= e <= q,
        p + q == 4294967296,
        near_spec(a, 0, reach),
        near_spec(b, 0, reach),
        near_spec(c, 0, reach),
        near_spec(d, 0, reach),
    ensures
        near_spec(
            blend3_spec(p + e, q - e, a, b, c, d),
            blend3_spec(p, q, a, b, c, d),
            6 * (4294967296 * (4294967296 * (e * reach))),
        ),
{
    let w = 4294967296int;
    let er = e * reach;
    lemma_blend_shifts(p, q, e, a, b, a, b, 0, reach);
    lemma_blend_shifts(p, q, e, b, c, b, c, 0, reach);
    lemma_blend_shifts(p, q, e, c, d, c, d, 0, reach);
    let y0 = blend_spec(p, q, a, b);
    let y1 = blend_spec(p, q, b, c);
    let y2 = blend_spec(p, q, c, d);
    let y0s = blend_spec(p + e, q - e, a, b);
    let y1s = blend_spec(p + e, q - e, b, c);
    let y2s = blend_spec(p + e, q - e, c, d);
    assert((p + q) * 0 == 0);
    assert((p + q) * reach == w * reach);
    assert(near_spec(y0s, y0, 2 * er) && near_spec(y0s, 0, w * reach));
    assert(near_spec(y1s, y1, 2 * er) && near_spec(y1s, 0, w * reach));
    assert(near_spec(y2s, y2, 2 * er) && near_spec(y2s, 0, w * reach));
    lemma_blend_shifts(p, q, e, y0, y1, y0s, y1s, 2 * er, w * reach);
    lemma_blend_shifts(p, q, e, y1, y2, y1s, y2s, 2 * er, w * reach);
    let z0 = blend_spec(p, q, y0, y1);
    let z1 = blend_spec(p, q, y1, y2);
    let z0s = blend_spec(p + e, q - e, y0s, y1s);
    let z1s = blend_spec(p + e, q - e, y1s, y2s);
    lemma_swap(e, w, reach);
    assert((p + q) * (2 * er) == w * (2 * er));
    assert((p + q) * (w * reach) == w * (w * reach));
    assert(near_spec(z0s, z0, 4 * (w * er)) && near_spec(z0s, 0, w * (w * reach)));
    assert(near_spec(z1s, z1, 4 * (w * er)) && near_spec(z1s, 0, w * (w * reach)));
    lemma_blend_shifts(p, q, e, z0, z1, z0s, z1s, 4 * (w * er), w * (w * reach));
    lemma_swap(e, w, w * reach);
    assert((p + q) * (4 * (w * er)) == w * (4 * (w * er)));
}

/// Three rounds of blending keep their arguments near: with weights that
/// are not negative and add up to 65536, where `k` times each value misses
/// its partner by `bound` at most, `k` times the result misses the result
/// of the partners by `bound` at the scale of the cube of 65536 at most.
pub proof fn lemma_blend3_carries(
    p: int,
    q: int,
    k: int,
    a: int,
    b: int,
    c: int,
    d: int,
    a2: int,
    b2: int,
    c2: int,
    d2: int,
    bound: int,
)
    requires
        p >= 0,
        q >= 0,
        p + q == 65536,
        near_spec(k * a, a2, bound),
        near_spec(k * b, b2, bound),
        near_spec(k * c, c2, bound),
        near_spec(k * d, d2, bound),
    ensures
        near_spec(
            k * blend3_spec(p, q, a, b, c, d),
            blend3_spec(p, q, a2, b2, c2, d2),
            65536 * (65536 * (65536 * bound)),
        ),
{
    lemma_blend_carries(p, q, k, a, b, a2, b2, bound);
    lemma_blend_carries(p, q, k, b, c, b2, c2, bound);
    lemma_blend_carries(p, q, k, c, d, c2, d2, bound);
    assert((p + q) * bound == 65536 * bound);
    let y0 = blend_spec(p, q, a, b);
    let y1 = blend_spec(p, q, b, c);
    let y2 = blend_spec(p, q, c, d);
    let y0s = blend_spec(p, q, a2, b2);
    let y1s = blend_spec(p, q, b2, c2);
    let y2s = blend_spec(p, q, c2, d2);
    lemma_blend_carries(p, q, k, y0, y1, y0s, y1s, 65536 * bound);
    lemma_blend_carries(p, q, k, y1, y2, y1s, y2s, 65536 * bound);
    assert((p + q) * (65536 * bound) == 65536 * (65536 * bound));
    lemma_blend_carries(
        p,
        q,
        k,
        blend_spec(p, q, y0, y1),
        blend_spec(p, q, y1, y2),
        blend_spec(p, q, y0s, y1s),
        blend_spec(p, q, y1s, y2s),
        65536 * (65536 * bound),
    );
    assert((p + q) * (65536 * (65536 * bound)) == 65536 * (65536 * (65536 * bound)));
}

/// Blends read backwards: three rounds over the values in reverse, with
/// the weights exchanged, give the same.
pub proof fn lemma_blend3_reverses(p: int, q: int, a: int, b: int, c: int, d: int)
    ensures
        blend_spec(p, q, a, b) == blend_spec(q, p, b, a),
        blend2_spec(p, q, a, b, c) == blend2_spec(q, p, c, b, a),
        blend3_spec(p, q, a, b, c, d) == blend3_spec(q, p, d, c, b, a),
{
    assert(blend_spec(p, q, a, b) == blend_spec(q, p, b, a));
    assert(blend_spec(p, q, b, c) == blend_spec(q, p, c, b));
    assert(blend_spec(p, q, c, d) == blend_spec(q, p, d, c));
    assert(blend2_spec(p, q, a, b, c) == blend2_spec(q, p, c, b, a));
    assert(blend2_spec(p, q, b, c, d) == blend2_spec(q, p, d, c, b));
}

/// The right part of an exact subdivision traces the curve: the mirror of
/// the left part.
pub proof fn lemma_right_subdivides(w: int, s: int, u: int, v: int, t: int, x0: int, x1: int, x2: int, x3: int)
    ensures
        ({
            let r0 = blend3_spec(v, t, x0, x1, x2, x3);
            let r1 = blend2_spec(v, t, x1, x2, x3);
            let r2 = blend_spec(v, t, x2, x3);
            blend3_spec(w, s, r0, u * r1, u * (u * r2), u * (u * (u * x3))) == blend3_spec(
                w * v,
                s * u + w * t,
                x0,
                x1,
                x2,
                x3,
            )
        }),
{
    let r0 = blend3_spec(v, t, x0, x1, x2, x3);
    let r1 = blend2_spec(v, t, x1, x2, x3);
    let r2 = blend_spec(v, t, x2, x3);
    lemma_blend3_reverses(v, t, x0, x1, x2, x3);
    lemma_blend3_reverses(v, t, x1, x2, x3, x3);
    lemma_blend3_reverses(v, t, x2, x3, x3, x3);
    lemma_blend3_reverses(w, s, r0, u * r1, u * (u * r2), u * (u * (u * x3)));
    lemma_left_subdivides(s, w, u, t, v, x3, x2, x1, x0);
    lemma_blend3_reverses(w * v, s * u + w * t, x0, x1, x2, x3);
}

} // verus!
