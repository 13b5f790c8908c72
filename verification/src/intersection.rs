//! Intersections of two cubic Bézier curves by Bézier clipping.
//!
//! Each step bounds one curve by a fat line, a pair of parallel lines that
//! holds its control points, and cuts the parameter range of the other curve
//! down to the part that can lie between the two lines. The two curves take
//! turns. Where a cut removes too little, the longer range is halved and both
//! halves are searched. A range of both curves that has shrunk to nothing is
//! an intersection.
use crate::arrayvec::ArrayVec;
use crate::bezier::Cubic;
use crate::float4::Float4;
use crate::line::Line;
use crate::scalar::{
    approx_eq, approx_eq_spec, lemma_max_is_upper_bound, lemma_min_is_lower_bound, max, max_spec,
    min, min_spec, one, one_spec, ratio, ratio_spec, strict_order, zero, zero_spec, Scalar,
};
use vstd::prelude::*;

verus! {

/// The most intersections that two cubic curves can have.
pub const MAX_INTERSECTIONS: usize = 9;

/// The most clipping steps that one pair of ranges is given.
pub const MAX_ITERATIONS: u32 = 15;

/// The most times that a range is halved on the way to one intersection.
pub const MAX_DEPTH: u32 = 64;

/// Why a search for intersections was given up.
#[derive(Clone, Copy, Debug, PartialEq)]
pub enum IntersectionError<S: Scalar> {
    /// The clipping of `a` and `b` did not settle within the allowed number
    /// of steps.
    MaxIterations { a: Cubic<S>, b: Cubic<S> },
    /// `a` and `b` yielded one intersection more than two cubic curves can
    /// have.
    TooManyIntersections { a: Cubic<S>, b: Cubic<S> },
}

/// A part of a curve: the curve and the range of its parameter that is still
/// in question.
#[derive(Clone, Copy, Debug, PartialEq)]
pub struct CurvePart<S: Scalar> {
    pub curve: Cubic<S>,
    pub start: S,
    pub end: S,
}

impl<S: Scalar> CurvePart<S> {
    /// The part of `curve` between the parameters `start` and `end`.
    pub fn new(curve: Cubic<S>, start: S, end: S) -> (r: Self)
        ensures
            r == (CurvePart { curve, start, end }),
    {
        CurvePart { curve, start, end }
    }

    /// The whole of `curve`: the range from zero to one.
    pub open spec fn whole_spec(curve: Cubic<S>) -> Self {
        CurvePart { curve, start: zero_spec(), end: one_spec() }
    }

    /// `end - start`.
    pub open spec fn length_spec(self) -> S {
        self.end.sub_spec(self.start)
    }

    /// `end - start`.
    pub fn length(&self) -> (r: S)
        ensures
            r == self.length_spec(),
    {
        self.end.sub(self.start)
    }

    /// The part as a curve of its own: the middle piece of the curve split
    /// at `start` and `end`.
    pub open spec fn get_spec(self) -> Cubic<S> {
        self.curve.split2_spec(self.start, self.end).1
    }

    /// The part as a curve of its own: the middle piece of the curve split
    /// at `start` and `end`.
    pub fn get(&self) -> (r: Cubic<S>)
        ensures
            r == self.get_spec(),
    {
        self.curve.split2(self.start, self.end).1
    }

    /// The parameter of the whole curve that the parameter `t` of the part
    /// stands for: `start + t * (end - start)`.
    pub open spec fn map_to_original_spec(self, t: S) -> S {
        self.start.add_spec(t.mul_spec(self.end.sub_spec(self.start)))
    }

    /// The parameter of the whole curve that the parameter `t` of the part
    /// stands for: `start + t * (end - start)`.
    pub fn map_to_original(&self, t: S) -> (r: S)
        ensures
            r == self.map_to_original_spec(t),
    {
        self.start.add(t.mul(self.end.sub(self.start)))
    }

    /// The two parts on either side of the parameter `at` of the part.
    pub open spec fn split_spec(self, at: S) -> (Self, Self) {
        let cut = self.map_to_original_spec(at);
        (
            CurvePart { curve: self.curve, start: self.start, end: cut },
            CurvePart { curve: self.curve, start: cut, end: self.end },
        )
    }

    /// The two parts on either side of the parameter `at` of the part.
    pub fn split(&self, at: S) -> (r: (Self, Self))
        ensures
            r == self.split_spec(at),
    {
        let cut = self.map_to_original(at);
        (
            CurvePart { curve: self.curve, start: self.start, end: cut },
            CurvePart { curve: self.curve, start: cut, end: self.end },
        )
    }

    /// Whether `start` and `end` lie between zero and one, `start` first.
    pub open spec fn is_valid_spec(self) -> bool {
        &&& zero_spec::<S>().le_spec(self.start)
        &&& self.start.le_spec(one_spec())
        &&& zero_spec::<S>().le_spec(self.end)
        &&& self.end.le_spec(one_spec())
        &&& self.start.le_spec(self.end)
    }

    /// Whether `start` and `end` lie between zero and one, `start` first.
    pub fn is_valid(&self) -> (r: bool)
        ensures
            r == self.is_valid_spec(),
    {
        zero::<S>().le(self.start) && self.start.le(one()) && zero::<S>().le(self.end)
            && self.end.le(one()) && self.start.le(self.end)
    }
}

/// The smallest of three scalars, searched from the last to the first.
pub open spec fn min3_spec<S: Scalar>(a: S, b: S, c: S) -> S {
    min_spec(a, min_spec(b, c))
}

/// The largest of three scalars, searched from the last to the first.
pub open spec fn max3_spec<S: Scalar>(a: S, b: S, c: S) -> S {
    max_spec(a, max_spec(b, c))
}

/// The fat line of a curve: the line through its first and last control
/// point, moved to the smallest and to the largest of the three offsets at
/// which a parallel passes through the ends and through each of the two
/// inner control points.
pub open spec fn fat_line_spec<S: Scalar>(curve: Cubic<S>) -> (Line<S>, Line<S>) {
    let thin = Line::between_spec(curve.point_spec(0), curve.point_spec(3));
    let line1 = thin.parallel_through_spec(curve.point_spec(1));
    let line2 = thin.parallel_through_spec(curve.point_spec(2));
    (
        Line { a: thin.a, b: thin.b, c: min3_spec(thin.c, line1.c, line2.c) },
        Line { a: thin.a, b: thin.b, c: max3_spec(thin.c, line1.c, line2.c) },
    )
}

/// The fat line of a curve: the line through its first and last control
/// point, moved to the smallest and to the largest of the three offsets at
/// which a parallel passes through the ends and through each of the two
/// inner control points.
pub fn fat_line<S: Scalar>(curve: &Cubic<S>) -> (r: (Line<S>, Line<S>))
    ensures
        r == fat_line_spec(*curve),
{
    let thin = Line::between(curve.p0(), curve.p3());
    let line1 = thin.parallel_through(curve.p1());
    let line2 = thin.parallel_through(curve.p2());
    (
        Line::with_c(thin, min(thin.c, min(line1.c, line2.c))),
        Line::with_c(thin, max(thin.c, max(line1.c, line2.c))),
    )
}

/// The slope of the lines at a right angle to `thin`: `1 / (a / b)`.
pub open spec fn perpendicular_slope_spec<S: Scalar>(thin: Line<S>) -> S {
    one_spec::<S>().div_spec(thin.a.div_spec(thin.b))
}

/// The perpendicular fat line of a curve: the two lines at a right angle to
/// the line through its first and last control point that hold all four
/// control points between them. Each control point gives the offset
/// `-(slope * x) + y`; the two lines are `new(slope, -1, offset)` at the
/// smallest and at the largest of the four.
pub open spec fn perpendicular_fat_line_spec<S: Scalar>(curve: Cubic<S>) -> (Line<S>, Line<S>) {
    let thin = Line::between_spec(curve.point_spec(0), curve.point_spec(3));
    let slope = perpendicular_slope_spec(thin);
    let offset = Float4::from_array_spec(curve.x).scale_spec(slope).neg_spec().add_spec(
        Float4::from_array_spec(curve.y),
    );
    (
        Line::new_spec(
            slope,
            S::from_int_spec(-1),
            min_spec(offset.a, min3_spec(offset.b, offset.c, offset.d)),
        ),
        Line::new_spec(
            slope,
            S::from_int_spec(-1),
            max_spec(offset.a, max3_spec(offset.b, offset.c, offset.d)),
        ),
    )
}

/// The perpendicular fat line of a curve: the two lines at a right angle to
/// the line through its first and last control point that hold all four
/// control points between them. Each control point gives the offset
/// `-(slope * x) + y`; the two lines are `new(slope, -1, offset)` at the
/// smallest and at the largest of the four.
pub fn perpendicular_fat_line<S: Scalar>(curve: &Cubic<S>) -> (r: (Line<S>, Line<S>))
    ensures
        r == perpendicular_fat_line_spec(*curve),
{
    let thin = Line::between(curve.p0(), curve.p3());
    let slope = one::<S>().div(thin.a.div(thin.b));
    let offset = Float4::from_array(&curve.x).scale(slope).neg().add(Float4::from_array(&curve.y));
    (
        Line::new(slope, S::from_int(-1), min(offset.a, min(offset.b, min(offset.c, offset.d)))),
        Line::new(slope, S::from_int(-1), max(offset.a, max(offset.b, max(offset.c, offset.d)))),
    )
}

/// The parameters one third apart at which the four control points of a
/// curve stand when its distance from a line is drawn over its parameter.
pub open spec fn thirds_spec<S: Scalar>() -> Float4<S> {
    Float4 { a: zero_spec(), b: ratio_spec(1, 3), c: ratio_spec(2, 3), d: one_spec() }
}

/// Where the lines from the point `(p1_x, p1_y)` to the four points
/// `(i / 3, distance[i])` cross zero, lane by lane. Each line is brought
/// into the normalized form `a * x - y + c = 0`; its crossing is `-c / a`.
pub open spec fn x_intercepts_spec<S: Scalar>(
    p1_x: Float4<S>,
    p1_y: Float4<S>,
    distance: Float4<S>,
) -> Float4<S> {
    let dx = thirds_spec::<S>().sub_spec(p1_x);
    let dy = distance.sub_spec(p1_y);
    let m = dy.div_spec(dx);
    let o = m.mul_spec(p1_x).neg_spec().add_spec(p1_y);
    let b = S::from_int_spec(-1);
    let div = m.mul_spec(m).add_spec(Float4::splat_spec(b.mul_spec(b))).sqrt_spec();
    let a = m.div_spec(div);
    let c = o.div_spec(div);
    c.neg_spec().div_spec(a)
}

/// Where the lines from the point `(p1_x, p1_y)` to the four points
/// `(i / 3, distance[i])` cross zero, lane by lane. Each line is brought
/// into the normalized form `a * x - y + c = 0`; its crossing is `-c / a`.
pub fn x_intercepts<S: Scalar>(p1_x: Float4<S>, p1_y: Float4<S>, distance: Float4<S>) -> (r: Float4<
    S,
>)
    ensures
        r == x_intercepts_spec(p1_x, p1_y, distance),
{
    let p2_x = Float4::new(zero(), ratio(1, 3), ratio(2, 3), one());
    let dx = p2_x.sub(p1_x);
    let dy = distance.sub(p1_y);
    let m = dy.div(dx);
    let o = m.mul(p1_x).neg().add(p1_y);
    let b = S::from_int(-1);
    let div = m.mul(m).add(Float4::splat(b.mul(b))).sqrt();
    let a = m.div(div);
    let c = o.div(div);
    c.neg().div(a)
}

/// The signed distances of the four control points from `line`.
pub open spec fn distances_spec<S: Scalar>(x: Float4<S>, y: Float4<S>, line: Line<S>) -> Float4<S> {
    x.scale_spec(line.a).add_spec(y.scale_spec(line.b)).add_spec(Float4::splat_spec(line.c))
}

/// The candidate `x` where it is above zero and below `best`, else `best`.
pub open spec fn lower_if_positive_spec<S: Scalar>(x: S, best: S) -> S {
    if zero_spec::<S>().lt_spec(x) {
        min_spec(x, best)
    } else {
        best
    }
}

/// The candidate `x` where it is below one and above `best`, else `best`.
pub open spec fn raise_if_below_one_spec<S: Scalar>(x: S, best: S) -> S {
    if x.lt_spec(one_spec()) {
        max_spec(x, best)
    } else {
        best
    }
}

/// The low end of the range in which a curve with the given distances from
/// a line can lie above it. Where the first control point is not below the
/// line this is zero. Otherwise it is the first crossing, after zero and not
/// after one, of the lines from the first control point to the three others.
pub open spec fn clip_low_spec<S: Scalar>(distance: Float4<S>) -> S {
    if distance.a.lt_spec(zero_spec()) {
        let x = x_intercepts_spec(
            Float4::splat_spec(zero_spec()),
            Float4::splat_spec(distance.a),
            distance,
        );
        lower_if_positive_spec(
            x.d,
            lower_if_positive_spec(x.c, lower_if_positive_spec(x.b, one_spec())),
        )
    } else {
        zero_spec()
    }
}

/// The high end of the range in which a curve with the given distances from
/// a line can lie above it. Where the last control point is not below the
/// line this is one. Otherwise it is the last crossing, before one and not
/// before zero, of the lines from the last control point to the three
/// others.
pub open spec fn clip_high_spec<S: Scalar>(distance: Float4<S>) -> S {
    if distance.d.lt_spec(zero_spec()) {
        let x = x_intercepts_spec(
            Float4::splat_spec(one_spec()),
            Float4::splat_spec(distance.d),
            distance,
        );
        raise_if_below_one_spec(
            x.c,
            raise_if_below_one_spec(x.b, raise_if_below_one_spec(x.a, zero_spec())),
        )
    } else {
        one_spec()
    }
}

/// Whether all four distances are strictly below zero: the control points
/// lie below the line, and so does the curve.
pub open spec fn all_below_spec<S: Scalar>(distance: Float4<S>) -> bool {
    let below = distance.less_than_spec(Float4::splat_spec(zero_spec()));
    below.0 && below.1 && below.2 && below.3
}

/// The range that holds nothing: it starts at one and ends at zero.
pub open spec fn empty_range_spec<S: Scalar>() -> (S, S) {
    (one_spec(), zero_spec())
}

/// The range of the parameter in which the curve with the control points
/// `x`, `y` can lie above `line`: the empty range where all four control
/// points lie below the line, else the range between the low and the high
/// end.
pub open spec fn clip_line_spec<S: Scalar>(x: Float4<S>, y: Float4<S>, line: Line<S>) -> (S, S) {
    let distance = distances_spec(x, y, line);
    if all_below_spec(distance) {
        empty_range_spec()
    } else {
        (clip_low_spec(distance), clip_high_spec(distance))
    }
}

/// The range of the parameter in which the curve with the control points
/// `x`, `y` can lie above `line`: the empty range where all four control
/// points lie below the line, else the range between the low and the high
/// end.
pub fn clip_line<S: Scalar>(x: Float4<S>, y: Float4<S>, line: &Line<S>) -> (r: (S, S))
    ensures
        r == clip_line_spec(x, y, *line),
{
    let distance = x.scale(line.a).add(y.scale(line.b)).add(Float4::splat(line.c));
    let below = distance.less_than(Float4::splat(zero()));
    if below.0 && below.1 && below.2 && below.3 {
        return (one(), zero());
    }
    let low = if distance.a.lt(zero()) {
        let x = x_intercepts(Float4::splat(zero()), Float4::splat(distance.a), distance);
        let mut best: S = one();
        if zero::<S>().lt(x.b) {
            best = min(x.b, best);
        }
        if zero::<S>().lt(x.c) {
            best = min(x.c, best);
        }
        if zero::<S>().lt(x.d) {
            best = min(x.d, best);
        }
        best
    } else {
        zero()
    };
    let high = if distance.d.lt(zero()) {
        let x = x_intercepts(Float4::splat(one()), Float4::splat(distance.d), distance);
        let mut best: S = zero();
        if x.a.lt(one()) {
            best = max(x.a, best);
        }
        if x.b.lt(one()) {
            best = max(x.b, best);
        }
        if x.c.lt(one()) {
            best = max(x.c, best);
        }
        best
    } else {
        one()
    };
    (low, high)
}

/// The range in which `curve` can lie between the two lines `low` and
/// `high` of a fat line: above `low` turned round, and above `high`.
pub open spec fn clip_between_spec<S: Scalar>(curve: Cubic<S>, low: Line<S>, high: Line<S>) -> (
    S,
    S,
) {
    let x = Float4::from_array_spec(curve.x);
    let y = Float4::from_array_spec(curve.y);
    let min_clip = clip_line_spec(x, y, low.neg_spec());
    let max_clip = clip_line_spec(x, y, high);
    (max_spec(min_clip.0, max_clip.0), min_spec(min_clip.1, max_clip.1))
}

/// The range in which `curve` can lie between the two lines `low` and
/// `high` of a fat line: above `low` turned round, and above `high`.
pub fn clip_between<S: Scalar>(curve: &Cubic<S>, low: Line<S>, high: Line<S>) -> (r: (S, S))
    ensures
        r == clip_between_spec(*curve, low, high),
{
    let x = Float4::from_array(&curve.x);
    let y = Float4::from_array(&curve.y);
    let min_line = low.neg();
    let min_clip = clip_line(x, y, &min_line);
    let max_clip = clip_line(x, y, &high);
    (max(min_clip.0, max_clip.0), min(min_clip.1, max_clip.1))
}

/// The range of the parameter of `curve` outside of which it cannot meet
/// `against`: `curve` is clipped by the fat line of `against` and by its
/// perpendicular fat line, and the narrower of the two ranges is taken, the
/// first where they are equally wide. A range that ends before it starts
/// counts with its width like any other: where `curve` lies below a line of
/// one fat line only by the rounding of a curve part that has shrunk to
/// almost nothing, the other fat line keeps the search going.
pub open spec fn clip_spec<S: Scalar>(curve: Cubic<S>, against: Cubic<S>) -> (S, S) {
    let (low, high) = fat_line_spec(against);
    let parallel = clip_between_spec(curve, low, high);
    let (p_low, p_high) = perpendicular_fat_line_spec(against);
    let perpendicular = clip_between_spec(curve, p_low, p_high);
    if perpendicular.1.sub_spec(perpendicular.0).abs_spec().lt_spec(
        parallel.1.sub_spec(parallel.0).abs_spec(),
    ) {
        perpendicular
    } else {
        parallel
    }
}

/// Clips `curve` against `against`: the range of the parameter of `curve`
/// that lies within a fat line of `against`.
pub fn clip<S: Scalar>(curve: &Cubic<S>, against: &Cubic<S>) -> (r: (S, S))
    ensures
        r == clip_spec(*curve, *against),
{
    let (low, high) = fat_line(against);
    let parallel = clip_between(curve, low, high);
    let (p_low, p_high) = perpendicular_fat_line(against);
    let perpendicular = clip_between(curve, p_low, p_high);
    if perpendicular.1.sub(perpendicular.0).abs().lt(parallel.1.sub(parallel.0).abs()) {
        perpendicular
    } else {
        parallel
    }
}

/// One clipping step: `part` cut down to what the clip against `against`
/// leaves of it, and the share of its length that is left.
pub open spec fn narrow_spec<S: Scalar>(part: CurvePart<S>, against: CurvePart<S>) -> (
    CurvePart<S>,
    S,
) {
    let (start, end) = clip_spec(part.get_spec(), against.get_spec());
    let cut = CurvePart {
        curve: part.curve,
        start: part.map_to_original_spec(start),
        end: part.map_to_original_spec(end),
    };
    (cut, cut.length_spec().div_spec(part.length_spec()))
}

/// One clipping step: `part` cut down to what the clip against `against`
/// leaves of it, and the share of its length that is left.
pub fn narrow<S: Scalar>(part: &CurvePart<S>, against: &CurvePart<S>) -> (r: (CurvePart<S>, S))
    ensures
        r == narrow_spec(*part, *against),
{
    let initial_length = part.length();
    let (start, end) = clip(&part.get(), &against.get());
    let cut = CurvePart {
        curve: part.curve,
        start: part.map_to_original(start),
        end: part.map_to_original(end),
    };
    (cut, cut.length().div(initial_length))
}

/// The share of its length above which a range that a clip has left counts
/// as too little removed: four fifths.
pub open spec fn slow_spec<S: Scalar>() -> S {
    ratio_spec(4, 5)
}

/// What recording the intersection `(t_a, t_b)` makes of the list `found`:
/// the list unchanged where `t_a` is within the shared tolerance of the
/// newest entry; an error where the list is full; else the list with the
/// pair appended.
pub open spec fn record_spec<S: Scalar>(
    found: Seq<(S, S)>,
    t_a: S,
    t_b: S,
    a: Cubic<S>,
    b: Cubic<S>,
) -> Result<Seq<(S, S)>, IntersectionError<S>> {
    if found.len() > 0 && approx_eq_spec(found.last().0, t_a) {
        Ok(found)
    } else if found.len() >= MAX_INTERSECTIONS {
        Err(IntersectionError::TooManyIntersections { a, b })
    } else {
        Ok(found.push((t_a, t_b)))
    }
}

/// Records the intersection `(t_a, t_b)` of the curves `a` and `b`, unless
/// it repeats the newest one.
pub fn record<S: Scalar>(
    found: &mut ArrayVec<(S, S), 9>,
    t_a: S,
    t_b: S,
    a: &Cubic<S>,
    b: &Cubic<S>,
) -> (r: Result<(), IntersectionError<S>>)
    ensures
        match record_spec(old(found)@, t_a, t_b, *a, *b) {
            Ok(list) => r is Ok && final(found)@ == list,
            Err(e) => r == Err::<(), IntersectionError<S>>(e) && final(found)@ == old(found)@,
        },
{
    let repeats = match found.last() {
        Some(newest) => approx_eq(newest.0, t_a),
        None => false,
    };
    if repeats {
        Ok(())
    } else {
        match found.try_push((t_a, t_b)) {
            Ok(()) => Ok(()),
            Err(_) => Err(IntersectionError::TooManyIntersections { a: *a, b: *b }),
        }
    }
}

/// The search for the intersections of the parts `a` and `b`, which has
/// taken `iteration` clipping steps on this pair of ranges and may halve a
/// range `depth` more times. `found` holds the intersections found so far.
///
/// A step clips `a` against `b` where `iteration` is even and `b` against
/// `a` where it is odd. Then, in this order:
/// - a clipped range that ends before it starts holds no intersection, and
///   the search of this pair ends;
/// - two ranges whose lengths add up to nothing, within the shared
///   tolerance, are an intersection, which is recorded at the two starts;
/// - a clip that left more than four fifths of the range has the longer of
///   the two ranges halved, and the search goes on in the lower half and
///   then the upper half, each against the other range unchanged;
/// - otherwise the next step follows.
/// The search fails where a pair of ranges has had its fifteen steps, where
/// no halving is left, and where a tenth intersection turns up.
pub open spec fn search_spec<S: Scalar>(
    a: CurvePart<S>,
    b: CurvePart<S>,
    found: Seq<(S, S)>,
    iteration: nat,
    depth: nat,
) -> Result<Seq<(S, S)>, IntersectionError<S>>
    decreases depth, MAX_ITERATIONS - iteration,
{
    if iteration >= MAX_ITERATIONS {
        Err(IntersectionError::MaxIterations { a: a.curve, b: b.curve })
    } else {
        let a1 = if iteration % 2 == 0 {
            narrow_spec(a, b).0
        } else {
            a
        };
        let b1 = if iteration % 2 == 0 {
            b
        } else {
            narrow_spec(b, a).0
        };
        let proportion = if iteration % 2 == 0 {
            narrow_spec(a, b).1
        } else {
            narrow_spec(b, a).1
        };
        if proportion.lt_spec(zero_spec()) {
            Ok(found)
        } else if approx_eq_spec(a1.length_spec().add_spec(b1.length_spec()), zero_spec()) {
            record_spec(found, a1.start, b1.start, a1.curve, b1.curve)
        } else if slow_spec::<S>().lt_spec(proportion) {
            if depth == 0 {
                Err(IntersectionError::MaxIterations { a: a.curve, b: b.curve })
            } else if b1.length_spec().lt_spec(a1.length_spec()) {
                let halves = a1.split_spec(ratio_spec(1, 2));
                match search_spec(halves.0, b1, found, 0, (depth - 1) as nat) {
                    Ok(list) => search_spec(halves.1, b1, list, 0, (depth - 1) as nat),
                    Err(e) => Err(e),
                }
            } else {
                let halves = b1.split_spec(ratio_spec(1, 2));
                match search_spec(a1, halves.0, found, 0, (depth - 1) as nat) {
                    Ok(list) => search_spec(a1, halves.1, list, 0, (depth - 1) as nat),
                    Err(e) => Err(e),
                }
            }
        } else {
            search_spec(a1, b1, found, iteration + 1, depth)
        }
    }
}

/// Finds the intersections of two curve parts and appends them to `found`.
pub fn find_intersections_in_range<S: Scalar>(
    a: CurvePart<S>,
    b: CurvePart<S>,
    found: &mut ArrayVec<(S, S), 9>,
    iteration: u32,
    depth: u32,
) -> (r: Result<(), IntersectionError<S>>)
    ensures
        match search_spec(a, b, old(found)@, iteration as nat, depth as nat) {
            Ok(list) => r is Ok && final(found)@ == list,
            Err(e) => r == Err::<(), IntersectionError<S>>(e),
        },
    decreases depth, MAX_ITERATIONS - iteration,
{
    if iteration >= MAX_ITERATIONS {
        return Err(IntersectionError::MaxIterations { a: a.curve, b: b.curve });
    }
    let mut a1 = a;
    let mut b1 = b;
    let proportion;
    if iteration % 2 == 0 {
        let (cut, share) = narrow(&a, &b);
        a1 = cut;
        proportion = share;
    } else {
        let (cut, share) = narrow(&b, &a);
        b1 = cut;
        proportion = share;
    }
    if proportion.lt(zero()) {
        Ok(())
    } else if approx_eq(a1.length().add(b1.length()), zero()) {
        record(found, a1.start, b1.start, &a1.curve, &b1.curve)
    } else if ratio::<S>(4, 5).lt(proportion) {
        if depth == 0 {
            Err(IntersectionError::MaxIterations { a: a.curve, b: b.curve })
        } else if b1.length().lt(a1.length()) {
            let (lower, upper) = a1.split(ratio(1, 2));
            match find_intersections_in_range(lower, b1, found, 0, depth - 1) {
                Ok(()) => find_intersections_in_range(upper, b1, found, 0, depth - 1),
                Err(e) => Err(e),
            }
        } else {
            let (lower, upper) = b1.split(ratio(1, 2));
            match find_intersections_in_range(a1, lower, found, 0, depth - 1) {
                Ok(()) => find_intersections_in_range(a1, upper, found, 0, depth - 1),
                Err(e) => Err(e),
            }
        }
    } else {
        find_intersections_in_range(a1, b1, found, iteration + 1, depth)
    }
}

/// The intersections of the curves `a` and `b`: what the search of the two
/// whole curves finds, starting from nothing.
pub open spec fn find_spec<S: Scalar>(a: Cubic<S>, b: Cubic<S>) -> Result<
    Seq<(S, S)>,
    IntersectionError<S>,
> {
    search_spec(
        CurvePart::whole_spec(a),
        CurvePart::whole_spec(b),
        Seq::empty(),
        0,
        MAX_DEPTH as nat,
    )
}

/// Calculates the parameters `(t_a, t_b)` of every intersection of the two
/// curves `a` and `b`, in the order in which the search comes upon them.
pub fn find<S: Scalar>(a: &Cubic<S>, b: &Cubic<S>) -> (r: Result<
    ArrayVec<(S, S), 9>,
    IntersectionError<S>,
>)
    ensures
        match find_spec(*a, *b) {
            Ok(list) => r is Ok && r->Ok_0@ == list && list.len() <= MAX_INTERSECTIONS,
            Err(e) => r == Err::<ArrayVec<(S, S), 9>, IntersectionError<S>>(e),
        },
{
    let mut found: ArrayVec<(S, S), 9> = ArrayVec::new();
    proof {
        lemma_search_keeps_capacity(
            CurvePart::whole_spec(*a),
            CurvePart::whole_spec(*b),
            Seq::empty(),
            0,
            MAX_DEPTH as nat,
        );
    }
    match find_intersections_in_range(
        CurvePart::new(*a, zero(), one()),
        CurvePart::new(*b, zero(), one()),
        &mut found,
        0,
        MAX_DEPTH,
    ) {
        Ok(()) => Ok(found),
        Err(e) => Err(e),
    }
}

/// The first parameters of the pairs `k ..`, and their second parameters.
pub open spec fn unzipped_spec<S: Scalar>(pairs: Seq<(S, S)>) -> (Seq<S>, Seq<S>) {
    (Seq::new(pairs.len(), |i: int| pairs[i].0), Seq::new(pairs.len(), |i: int| pairs[i].1))
}

/// The parameter of a whole curve that the parameter `t` of its lower half
/// stands for, and the one that the parameter `u` of its upper half stands
/// for: `t / 2` and `1 / 2 + u / 2`.
pub open spec fn from_halves_spec<S: Scalar>(t: S, u: S) -> (S, S) {
    (
        t.mul_spec(ratio_spec(1, 2)),
        ratio_spec::<S>(1, 2).add_spec(u.mul_spec(ratio_spec(1, 2))),
    )
}

/// Whether the pair is the place where the two halves of a curve join: the
/// end of the lower half and the start of the upper half, within the shared
/// tolerance.
pub open spec fn is_joint_spec<S: Scalar>(pair: (S, S)) -> bool {
    approx_eq_spec(pair.0, one_spec()) && approx_eq_spec(pair.1, zero_spec())
}

/// The first of the pairs `k ..` that is not the joint of the two halves.
pub open spec fn first_crossing_spec<S: Scalar>(pairs: Seq<(S, S)>, k: int) -> Option<(S, S)>
    decreases pairs.len() - k,
{
    if k < 0 || k >= pairs.len() {
        None
    } else if is_joint_spec(pairs[k]) {
        first_crossing_spec(pairs, k + 1)
    } else {
        Some(from_halves_spec(pairs[k].0, pairs[k].1))
    }
}

/// Where a curve crosses itself: the curve is split in the middle, the two
/// halves are intersected, and the first intersection that is not their
/// joint is given in the parameters of the whole curve.
pub open spec fn find_self_spec<S: Scalar>(curve: Cubic<S>) -> Result<Option<(S, S)>, IntersectionError<S>> {
    let halves = curve.split_spec(ratio_spec(1, 2));
    match find_spec(halves.0, halves.1) {
        Err(e) => Err(e),
        Ok(pairs) => Ok(first_crossing_spec(pairs, 0)),
    }
}

/// Finds the parameters at which a curve crosses itself, if it does.
pub fn find_self<S: Scalar>(curve: &Cubic<S>) -> (r: Result<Option<(S, S)>, IntersectionError<S>>)
    ensures
        r == find_self_spec(*curve),
{
    let (lower, upper) = curve.split(ratio(1, 2));
    match find(&lower, &upper) {
        Err(e) => Err(e),
        Ok(pairs) => {
            let mut k: usize = 0;
            while k < pairs.len()
                invariant
                    0 <= k <= pairs@.len(),
                    find_self_spec(*curve) == Ok::<Option<(S, S)>, IntersectionError<S>>(
                        first_crossing_spec(pairs@, 0),
                    ),
                    first_crossing_spec(pairs@, k as int) == first_crossing_spec(pairs@, 0),
                decreases pairs@.len() - k,
            {
                let pair = *pairs.get(k);
                if !(approx_eq(pair.0, one()) && approx_eq(pair.1, zero())) {
                    let half = ratio::<S>(1, 2);
                    return Ok(Some((pair.0.mul(half), half.add(pair.1.mul(half)))));
                }
                k = k + 1;
            }
            Ok(None)
        },
    }
}

impl<S: Scalar> Cubic<S> {
    /// The parameters of every intersection with `other`: those of this
    /// curve, and those of `other`, in the order in which the search comes
    /// upon the intersections.
    pub fn find_intersections(&self, other: &Self) -> (r: Result<
        (ArrayVec<S, 9>, ArrayVec<S, 9>),
        IntersectionError<S>,
    >)
        ensures
            match find_spec(*self, *other) {
                Ok(pairs) => r matches Ok(lists) && lists.0@ == unzipped_spec(pairs).0 && lists.1@
                    == unzipped_spec(pairs).1,
                Err(e) => r == Err::<(ArrayVec<S, 9>, ArrayVec<S, 9>), IntersectionError<S>>(e),
            },
    {
        match find(self, other) {
            Err(e) => Err(e),
            Ok(pairs) => {
                let mut first: ArrayVec<S, 9> = ArrayVec::new();
                let mut second: ArrayVec<S, 9> = ArrayVec::new();
                let mut k: usize = 0;
                while k < pairs.len()
                    invariant
                        0 <= k <= pairs@.len() <= MAX_INTERSECTIONS,
                        first@.len() == k,
                        second@.len() == k,
                        forall|i: int| 0 <= i < k ==> first@[i] == pairs@[i].0,
                        forall|i: int| 0 <= i < k ==> second@[i] == pairs@[i].1,
                    decreases pairs@.len() - k,
                {
                    let pair = *pairs.get(k);
                    first.push(pair.0);
                    second.push(pair.1);
                    k = k + 1;
                }
                assert(first@ =~= unzipped_spec(pairs@).0);
                assert(second@ =~= unzipped_spec(pairs@).1);
                Ok((first, second))
            },
        }
    }
}

/// Recording never lets the list grow beyond nine entries, and it keeps
/// what the list held.
pub proof fn lemma_record_keeps_capacity<S: Scalar>(
    found: Seq<(S, S)>,
    t_a: S,
    t_b: S,
    a: Cubic<S>,
    b: Cubic<S>,
)
    requires
        found.len() <= MAX_INTERSECTIONS,
    ensures
        record_spec(found, t_a, t_b, a, b) matches Ok(list) ==> list.len() <= MAX_INTERSECTIONS
            && found.is_prefix_of(list),
{
}

/// A search never lets the list grow beyond nine entries, and it keeps what
/// the list held: whatever it finds comes after.
pub proof fn lemma_search_keeps_capacity<S: Scalar>(
    a: CurvePart<S>,
    b: CurvePart<S>,
    found: Seq<(S, S)>,
    iteration: nat,
    depth: nat,
)
    requires
        found.len() <= MAX_INTERSECTIONS,
    ensures
        search_spec(a, b, found, iteration, depth) matches Ok(list) ==> list.len()
            <= MAX_INTERSECTIONS && found.is_prefix_of(list),
    decreases depth, MAX_ITERATIONS - iteration,
{
    if iteration < MAX_ITERATIONS {
        let a1 = if iteration % 2 == 0 {
            narrow_spec(a, b).0
        } else {
            a
        };
        let b1 = if iteration % 2 == 0 {
            b
        } else {
            narrow_spec(b, a).0
        };
        let proportion = if iteration % 2 == 0 {
            narrow_spec(a, b).1
        } else {
            narrow_spec(b, a).1
        };
        if proportion.lt_spec(zero_spec()) {
        } else if approx_eq_spec(a1.length_spec().add_spec(b1.length_spec()), zero_spec()) {
            lemma_record_keeps_capacity(found, a1.start, b1.start, a1.curve, b1.curve);
        } else if slow_spec::<S>().lt_spec(proportion) {
            if depth == 0 {
            } else if b1.length_spec().lt_spec(a1.length_spec()) {
                let halves = a1.split_spec(ratio_spec(1, 2));
                lemma_search_keeps_capacity(halves.0, b1, found, 0, (depth - 1) as nat);
                match search_spec(halves.0, b1, found, 0, (depth - 1) as nat) {
                    Ok(list) => {
                        lemma_search_keeps_capacity(halves.1, b1, list, 0, (depth - 1) as nat);
                    },
                    Err(e) => {},
                }
            } else {
                let halves = b1.split_spec(ratio_spec(1, 2));
                lemma_search_keeps_capacity(a1, halves.0, found, 0, (depth - 1) as nat);
                match search_spec(a1, halves.0, found, 0, (depth - 1) as nat) {
                    Ok(list) => {
                        lemma_search_keeps_capacity(a1, halves.1, list, 0, (depth - 1) as nat);
                    },
                    Err(e) => {},
                }
            }
        } else {
            lemma_search_keeps_capacity(a1, b1, found, iteration + 1, depth);
        }
    }
}

/// The fat line is as tight as the control points allow: the offset of each
/// of its two lines is the offset of the line through the ends or of the
/// parallel through one of the inner control points, none of these three
/// offsets is below that of the low line, and none is above that of the
/// high line.
pub proof fn lemma_fat_line_tight<S: Scalar>(curve: Cubic<S>)
    requires
        strict_order::<S>(),
    ensures
        ({
            let thin = Line::between_spec(curve.point_spec(0), curve.point_spec(3));
            let c1 = thin.parallel_through_spec(curve.point_spec(1)).c;
            let c2 = thin.parallel_through_spec(curve.point_spec(2)).c;
            let (low, high) = fat_line_spec(curve);
            &&& low.a == thin.a && low.b == thin.b && high.a == thin.a && high.b == thin.b
            &&& low.c == thin.c || low.c == c1 || low.c == c2
            &&& high.c == thin.c || high.c == c1 || high.c == c2
            &&& !thin.c.lt_spec(low.c) && !c1.lt_spec(low.c) && !c2.lt_spec(low.c)
            &&& !high.c.lt_spec(thin.c) && !high.c.lt_spec(c1) && !high.c.lt_spec(c2)
        }),
{
    let thin = Line::between_spec(curve.point_spec(0), curve.point_spec(3));
    let c1 = thin.parallel_through_spec(curve.point_spec(1)).c;
    let c2 = thin.parallel_through_spec(curve.point_spec(2)).c;
    let lo = min_spec(c1, c2);
    let hi = max_spec(c1, c2);
    lemma_min_is_lower_bound(c1, c2);
    lemma_min_is_lower_bound(thin.c, lo);
    lemma_max_is_upper_bound(c1, c2);
    lemma_max_is_upper_bound(thin.c, hi);
    let low = min_spec(thin.c, lo);
    let high = max_spec(thin.c, hi);
    if c1.lt_spec(low) && low != lo {
        assert(c1.lt_spec(lo));
    }
    if c2.lt_spec(low) && low != lo {
        assert(c2.lt_spec(lo));
    }
    if high.lt_spec(c1) && high != hi {
        assert(hi.lt_spec(c1));
    }
    if high.lt_spec(c2) && high != hi {
        assert(hi.lt_spec(c2));
    }
}

} // verus!
