//! Paths: runs of cubic curves that share their end points.
use crate::bezier::Cubic;
use crate::intersection::{find_self, find_self_spec};
use crate::point::Point;
use crate::scalar::{approx_eq, approx_eq_spec, ratio, ratio_spec, Scalar};
use vstd::prelude::*;

verus! {

/// The most points that a path can hold: positions are 16 bits wide.
pub const MAX_POINTS: usize = 65535;

/// A contiguous run of points. Every three points after the first add one
/// curve, so a segment of `length` points holds `(length - 1) / 3` curves.
#[derive(Clone, Copy, Debug, PartialEq, Eq, Hash)]
pub struct Segment {
    pub length: u16,
}

/// A path: its segments in order, and the coordinates of all their points in
/// two parallel buffers.
#[derive(Clone, Debug, PartialEq)]
pub struct Path<S: Scalar> {
    pub segments: Vec<Segment>,
    pub x: Vec<S>,
    pub y: Vec<S>,
}

/// What a path holds, as plain sequences.
pub struct PathModel<S: Scalar> {
    pub segments: Seq<Segment>,
    pub x: Seq<S>,
    pub y: Seq<S>,
}

impl<S: Scalar> View for Path<S> {
    type V = PathModel<S>;

    open spec fn view(&self) -> PathModel<S> {
        PathModel { segments: self.segments@, x: self.x@, y: self.y@ }
    }
}

/// The number of points in the first `k` segments.
pub open spec fn points_before_spec(segments: Seq<Segment>, k: int) -> int
    decreases k,
{
    if k <= 0 {
        0
    } else {
        points_before_spec(segments, k - 1) + segments[k - 1].length
    }
}

/// The number of curves in the first `k` segments.
pub open spec fn curves_before_spec(segments: Seq<Segment>, k: int) -> int
    decreases k,
{
    if k <= 0 {
        0
    } else {
        curves_before_spec(segments, k - 1) + (segments[k - 1].length - 1) / 3
    }
}

/// A segment holds a first point and then three points for each curve.
pub open spec fn segment_wf_spec(segment: Segment) -> bool {
    segment.length >= 1 && (segment.length - 1) % 3 == 0
}

impl<S: Scalar> PathModel<S> {
    /// The two buffers are as long as the segments say, every segment is
    /// one point longer than a multiple of three, and positions fit in 16
    /// bits.
    pub open spec fn wf(self) -> bool {
        &&& self.x.len() == self.y.len()
        &&& self.x.len() == points_before_spec(self.segments, self.segments.len() as int)
        &&& self.x.len() <= MAX_POINTS
        &&& forall|i: int| 0 <= i < self.segments.len() ==> segment_wf_spec(#[trigger] self.segments[i])
    }

    /// The number of curves in the path.
    pub open spec fn num_curves(self) -> int {
        curves_before_spec(self.segments, self.segments.len() as int)
    }

    /// The curve whose first control point is at `first_point`.
    pub open spec fn curve_at(self, first_point: int) -> Cubic<S> {
        Cubic {
            x: [
                self.x[first_point],
                self.x[first_point + 1],
                self.x[first_point + 2],
                self.x[first_point + 3],
            ],
            y: [
                self.y[first_point],
                self.y[first_point + 1],
                self.y[first_point + 2],
                self.y[first_point + 3],
            ],
        }
    }
}

/// The points of the first `k` segments grow with `k`.
pub proof fn lemma_points_before_monotonic(segments: Seq<Segment>, i: int, j: int)
    requires
        0 <= i <= j <= segments.len(),
    ensures
        points_before_spec(segments, i) <= points_before_spec(segments, j),
    decreases j - i,
{
    if i < j {
        lemma_points_before_monotonic(segments, i, j - 1);
    }
}

/// The counts over the first `k` segments do not depend on the segments
/// after them.
pub proof fn lemma_counts_ignore_later(a: Seq<Segment>, b: Seq<Segment>, k: int)
    requires
        0 <= k <= a.len(),
        k <= b.len(),
        forall|i: int| 0 <= i < k ==> a[i] == b[i],
    ensures
        points_before_spec(a, k) == points_before_spec(b, k),
        curves_before_spec(a, k) == curves_before_spec(b, k),
    decreases k,
{
    if k > 0 {
        lemma_counts_ignore_later(a, b, k - 1);
    }
}

/// Three points per curve and one more per segment: in a path of well
/// formed segments the points of the first `k` segments number three times
/// their curves plus `k`.
pub proof fn lemma_points_and_curves(segments: Seq<Segment>, k: int)
    requires
        0 <= k <= segments.len(),
        forall|i: int| 0 <= i < segments.len() ==> segment_wf_spec(#[trigger] segments[i]),
    ensures
        points_before_spec(segments, k) == 3 * curves_before_spec(segments, k) + k,
        curves_before_spec(segments, k) >= 0,
    decreases k,
{
    if k > 0 {
        lemma_points_and_curves(segments, k - 1);
        assert(segment_wf_spec(segments[k - 1]));
    }
}

impl<S: Scalar> Path<S> {
    /// A path without segments.
    pub fn new() -> (r: Self)
        ensures
            r@.segments.len() == 0,
            r@.x.len() == 0,
            r@.y.len() == 0,
            r@.wf(),
    {
        Path { segments: Vec::new(), x: Vec::new(), y: Vec::new() }
    }

    /// Whether the path is well formed.
    pub fn is_valid(&self) -> (r: bool)
        ensures
            r == self@.wf(),
    {
        if self.x.len() != self.y.len() || self.x.len() > MAX_POINTS {
            return false;
        }
        let mut total: usize = 0;
        let mut k: usize = 0;
        while k < self.segments.len()
            invariant
                0 <= k <= self.segments.len(),
                total == points_before_spec(self.segments@, k as int),
                total <= self.x.len(),
                self.x.len() <= MAX_POINTS,
                forall|i: int| 0 <= i < k ==> segment_wf_spec(#[trigger] self.segments@[i]),
            decreases self.segments.len() - k,
        {
            let length = self.segments[k].length;
            if length < 1 || (length - 1) % 3 != 0 {
                assert(!segment_wf_spec(self.segments@[k as int]));
                return false;
            }
            if length as usize > self.x.len() - total {
                proof {
                    lemma_points_before_monotonic(
                        self.segments@,
                        k + 1,
                        self.segments@.len() as int,
                    );
                }
                return false;
            }
            total = total + length as usize;
            k = k + 1;
        }
        total == self.x.len()
    }

    /// The number of curves in the path.
    pub fn num_curves(&self) -> (r: usize)
        requires
            self@.wf(),
        ensures
            r == self@.num_curves(),
            3 * r + self@.segments.len() == self@.x.len(),
    {
        let mut count: usize = 0;
        let mut k: usize = 0;
        proof {
            lemma_points_and_curves(self.segments@, self.segments@.len() as int);
        }
        while k < self.segments.len()
            invariant
                0 <= k <= self.segments.len(),
                self@.wf(),
                count == curves_before_spec(self.segments@, k as int),
            decreases self.segments.len() - k,
        {
            proof {
                lemma_points_and_curves(self.segments@, k as int);
                lemma_points_and_curves(self.segments@, k + 1);
                lemma_points_before_monotonic(self.segments@, k + 1, self.segments@.len() as int);
                assert(segment_wf_spec(self.segments@[k as int]));
            }
            count = count + ((self.segments[k].length - 1) / 3) as usize;
            k = k + 1;
        }
        count
    }

    /// The curve whose first control point is at `first_point`.
    pub fn curve_at(&self, first_point: usize) -> (r: Cubic<S>)
        requires
            first_point + 3 < self@.x.len(),
            self@.x.len() == self@.y.len(),
        ensures
            r == self@.curve_at(first_point as int),
    {
        assert(first_point + 3 < self.x.len());
        Cubic {
            x: [
                self.x[first_point],
                self.x[first_point + 1],
                self.x[first_point + 2],
                self.x[first_point + 3],
            ],
            y: [
                self.y[first_point],
                self.y[first_point + 1],
                self.y[first_point + 2],
                self.y[first_point + 3],
            ],
        }
    }
}

/// Why a path could not be extended.
#[derive(Clone, Copy, Debug, PartialEq, Eq)]
pub enum Error {
    /// A curve was added before the first `move_to`.
    PathNotStarted,
    /// The path would hold more points than positions can address.
    TooManyCurves,
    /// A curve could not be searched for a crossing with itself.
    Degenerate,
}

/// Builds a path segment by segment, curve by curve.
pub struct Builder<S: Scalar> {
    segments: Vec<Segment>,
    current: Option<Segment>,
    x: Vec<S>,
    y: Vec<S>,
}

/// What a builder holds, as plain values: the segments that are finished,
/// the length of the segment that is being drawn, and the points of both.
pub struct BuilderModel<S: Scalar> {
    pub segments: Seq<Segment>,
    pub current: Option<Segment>,
    pub x: Seq<S>,
    pub y: Seq<S>,
}

impl<S: Scalar> View for Builder<S> {
    type V = BuilderModel<S>;

    closed spec fn view(&self) -> BuilderModel<S> {
        BuilderModel { segments: self.segments@, current: self.current, x: self.x@, y: self.y@ }
    }
}

/// The inner control points of the cubic curve that runs straight from
/// `(x0, y0)` to `(x3, y3)`, and its end: a quarter and three quarters of
/// the way, and the end itself.
pub open spec fn line_as_cubic_spec<S: Scalar>(x0: S, y0: S, x3: S, y3: S) -> (Seq<S>, Seq<S>) {
    let dx = x3.sub_spec(x0);
    let dy = y3.sub_spec(y0);
    (
        seq![x0.add_spec(dx.mul_spec(ratio_spec(1, 4))), x0.add_spec(dx.mul_spec(ratio_spec(3, 4))), x3],
        seq![y0.add_spec(dy.mul_spec(ratio_spec(1, 4))), y0.add_spec(dy.mul_spec(ratio_spec(3, 4))), y3],
    )
}

/// The points that a cubic curve adds to a segment that ends at its first
/// control point. A curve that does not cross itself adds its last three
/// control points. One that crosses itself is cut at both parameters of the
/// crossing, the lower first, and adds the last three points of each of its
/// three pieces.
pub open spec fn cubic_points_spec<S: Scalar>(c: Cubic<S>) -> Result<(Seq<S>, Seq<S>), Error> {
    match find_self_spec(c) {
        Err(_) => Err(Error::Degenerate),
        Ok(None) => Ok(c.tail_spec()),
        Ok(Some(cuts)) => {
            let ts = if cuts.1.lt_spec(cuts.0) {
                seq![cuts.1, cuts.0]
            } else {
                seq![cuts.0, cuts.1]
            };
            let pieces = c.splitn_spec(ts);
            Ok((pieces.0.subrange(1, pieces.0.len() as int), pieces.1.subrange(1, pieces.1.len() as int)))
        },
    }
}

impl<S: Scalar> BuilderModel<S> {
    /// The number of points of the segment that is being drawn.
    pub open spec fn open_points(self) -> int {
        match self.current {
            Some(segment) => segment.length as int,
            None => 0,
        }
    }

    /// The buffers are as long as the finished segments and the one being
    /// drawn say, every segment is one point longer than a multiple of
    /// three, and positions fit in 16 bits.
    pub open spec fn wf(self) -> bool {
        &&& self.x.len() == self.y.len()
        &&& self.x.len() == points_before_spec(self.segments, self.segments.len() as int)
            + self.open_points()
        &&& self.x.len() <= MAX_POINTS
        &&& forall|i: int| 0 <= i < self.segments.len() ==> segment_wf_spec(#[trigger] self.segments[i])
        &&& self.current matches Some(segment) ==> segment_wf_spec(segment)
    }

    /// The segments with the one being drawn, if any, finished.
    pub open spec fn finished(self) -> Seq<Segment> {
        match self.current {
            Some(segment) => self.segments.push(segment),
            None => self.segments,
        }
    }

    /// The builder after a segment was started at `point`.
    pub open spec fn move_to_spec(self, point: Point<S>) -> Result<Self, Error> {
        if self.x.len() + 1 > MAX_POINTS {
            Err(Error::TooManyCurves)
        } else {
            Ok(
                BuilderModel {
                    segments: self.finished(),
                    current: Some(Segment { length: 1 }),
                    x: self.x.push(point.x),
                    y: self.y.push(point.y),
                },
            )
        }
    }

    /// The builder after the points `added` were appended to the segment
    /// that is being drawn.
    pub open spec fn extended_spec(self, added: (Seq<S>, Seq<S>)) -> Result<Self, Error> {
        if self.current is None {
            Err(Error::PathNotStarted)
        } else if self.x.len() + added.0.len() > MAX_POINTS {
            Err(Error::TooManyCurves)
        } else {
            Ok(
                BuilderModel {
                    segments: self.segments,
                    current: Some(
                        Segment { length: (self.current->Some_0.length + added.0.len()) as u16 },
                    ),
                    x: self.x + added.0,
                    y: self.y + added.1,
                },
            )
        }
    }

    /// The builder after a straight line to `point` was added.
    pub open spec fn line_to_spec(self, point: Point<S>) -> Result<Self, Error> {
        if self.current is None {
            Err(Error::PathNotStarted)
        } else {
            self.extended_spec(line_as_cubic_spec(self.x.last(), self.y.last(), point.x, point.y))
        }
    }

    /// The builder after the cubic curve from the last point over `p1` and
    /// `p2` to `p3` was added.
    pub open spec fn add_cubic_spec(self, p1: Point<S>, p2: Point<S>, p3: Point<S>) -> Result<Self, Error> {
        if self.current is None {
            Err(Error::PathNotStarted)
        } else {
            let from = Point { x: self.x.last(), y: self.y.last() };
            match cubic_points_spec(Cubic::from_points_spec(from, p1, p2, p3)) {
                Err(e) => Err(e),
                Ok(added) => self.extended_spec(added),
            }
        }
    }

    /// The builder after the segment that is being drawn was closed: where
    /// its last point is not its first, within the shared tolerance, a line
    /// back to the first is added; then the segment is finished.
    pub open spec fn close_spec(self) -> Result<Self, Error> {
        if self.current is None {
            Err(Error::PathNotStarted)
        } else {
            let first = self.x.len() - self.current->Some_0.length;
            let joined = if approx_eq_spec(self.x[first], self.x.last()) && approx_eq_spec(
                self.y[first],
                self.y.last(),
            ) {
                Ok(self)
            } else {
                self.extended_spec(
                    line_as_cubic_spec(self.x.last(), self.y.last(), self.x[first], self.y[first]),
                )
            };
            match joined {
                Err(e) => Err(e),
                Ok(b) => Ok(
                    BuilderModel { segments: b.finished(), current: None, x: b.x, y: b.y },
                ),
            }
        }
    }

    /// The path that the builder has drawn.
    pub open spec fn build_spec(self) -> PathModel<S> {
        PathModel { segments: self.finished(), x: self.x, y: self.y }
    }
}

/// Finishing the segment that is being drawn adds its points to the count
/// and keeps every segment well formed.
pub proof fn lemma_finished<S: Scalar>(b: BuilderModel<S>)
    requires
        b.wf(),
    ensures
        points_before_spec(b.finished(), b.finished().len() as int) == b.x.len(),
        forall|i: int| 0 <= i < b.finished().len() ==> segment_wf_spec(#[trigger] b.finished()[i]),
{
    match b.current {
        Some(segment) => {
            lemma_counts_ignore_later(b.segments, b.finished(), b.segments.len() as int);
        },
        None => {},
    }
}

impl<S: Scalar> Builder<S> {
    /// A builder that has drawn nothing.
    pub fn new() -> (r: Self)
        ensures
            r@ == (BuilderModel::<S> {
                segments: Seq::empty(),
                current: None,
                x: Seq::empty(),
                y: Seq::empty(),
            }),
            r@.wf(),
    {
        Builder { segments: Vec::new(), current: None, x: Vec::new(), y: Vec::new() }
    }

    /// Finishes the segment that is being drawn, if there is one.
    fn finish(&mut self)
        requires
            old(self)@.wf(),
        ensures
            final(self)@ == (BuilderModel {
                segments: old(self)@.finished(),
                current: None,
                x: old(self)@.x,
                y: old(self)@.y,
            }),
            final(self)@.wf(),
    {
        proof {
            lemma_finished(self@);
        }
        match self.current {
            Some(segment) => {
                self.segments.push(segment);
                self.current = None;
            },
            None => {},
        }
    }

    /// Appends points to the segment that is being drawn.
    fn extend(&mut self, xs: &[S], ys: &[S], from: usize) -> (r: Result<(), Error>)
        requires
            old(self)@.wf(),
            xs@.len() == ys@.len(),
            from <= xs@.len(),
            (xs@.len() - from) % 3 == 0,
        ensures
            match old(self)@.extended_spec(
                (xs@.subrange(from as int, xs@.len() as int), ys@.subrange(from as int, ys@.len() as int)),
            ) {
                Ok(b) => r is Ok && final(self)@ == b,
                Err(e) => r == Err::<(), Error>(e) && final(self)@ == old(self)@,
            },
            final(self)@.wf(),
    {
        match self.current {
            None => Err(Error::PathNotStarted),
            Some(segment) => {
                let added = xs.len() - from;
                if added > MAX_POINTS - self.x.len() {
                    return Err(Error::TooManyCurves);
                }
                proof {
                    lemma_points_nonnegative_prefix(self@.segments, self@.segments.len() as int);
                }
                let mut i: usize = from;
                while i < xs.len()
                    invariant
                        from <= i <= xs@.len(),
                        xs@.len() == ys@.len(),
                        self.x@ == old(self).x@ + xs@.subrange(from as int, i as int),
                        self.y@ == old(self).y@ + ys@.subrange(from as int, i as int),
                        self.segments == old(self).segments,
                        self.current == old(self).current,
                    decreases xs@.len() - i,
                {
                    self.x.push(xs[i]);
                    self.y.push(ys[i]);
                    assert(self.x@ =~= old(self).x@ + xs@.subrange(from as int, i + 1));
                    assert(self.y@ =~= old(self).y@ + ys@.subrange(from as int, i + 1));
                    i = i + 1;
                }
                self.current = Some(Segment { length: (segment.length as usize + added) as u16 });
                Ok(())
            },
        }
    }

    /// Starts a segment at `point`. The segment that was being drawn is
    /// finished as it is.
    pub fn move_to(&mut self, point: Point<S>) -> (r: Result<(), Error>)
        requires
            old(self)@.wf(),
        ensures
            match old(self)@.move_to_spec(point) {
                Ok(b) => r is Ok && final(self)@ == b,
                Err(e) => r == Err::<(), Error>(e) && final(self)@ == old(self)@,
            },
            final(self)@.wf(),
    {
        if self.x.len() >= MAX_POINTS {
            return Err(Error::TooManyCurves);
        }
        self.finish();
        self.x.push(point.x);
        self.y.push(point.y);
        self.current = Some(Segment { length: 1 });
        Ok(())
    }

    /// Adds a straight line from the last point to `point`, as a cubic
    /// curve.
    pub fn line_to(&mut self, point: Point<S>) -> (r: Result<(), Error>)
        requires
            old(self)@.wf(),
        ensures
            match old(self)@.line_to_spec(point) {
                Ok(b) => r is Ok && final(self)@ == b,
                Err(e) => r == Err::<(), Error>(e) && final(self)@ == old(self)@,
            },
            final(self)@.wf(),
    {
        if self.current.is_none() {
            return Err(Error::PathNotStarted);
        }
        proof {
            lemma_points_nonnegative_prefix(self@.segments, self@.segments.len() as int);
        }
        let n = self.x.len();
        let (xs, ys) = Self::line_as_cubic(self.x[n - 1], self.y[n - 1], point.x, point.y);
        assert(xs@.subrange(0, 3) =~= xs@);
        assert(ys@.subrange(0, 3) =~= ys@);
        self.extend(&xs, &ys, 0)
    }

    /// Adds the cubic curve from the last point over `p1` and `p2` to `p3`.
    /// A curve that crosses itself is added as the three pieces between the
    /// two parameters of the crossing.
    pub fn add_cubic(&mut self, p1: Point<S>, p2: Point<S>, p3: Point<S>) -> (r: Result<(), Error>)
        requires
            old(self)@.wf(),
        ensures
            match old(self)@.add_cubic_spec(p1, p2, p3) {
                Ok(b) => r is Ok && final(self)@ == b,
                Err(e) => r == Err::<(), Error>(e) && final(self)@ == old(self)@,
            },
            final(self)@.wf(),
    {
        if self.current.is_none() {
            return Err(Error::PathNotStarted);
        }
        proof {
            lemma_points_nonnegative_prefix(self@.segments, self@.segments.len() as int);
        }
        let n = self.x.len();
        let from = Point { x: self.x[n - 1], y: self.y[n - 1] };
        let c = Cubic::new(from, p1, p2, p3);
        match find_self(&c) {
            Err(_) => Err(Error::Degenerate),
            Ok(None) => {
                let xs = [c.x[1], c.x[2], c.x[3]];
                let ys = [c.y[1], c.y[2], c.y[3]];
                assert(xs@.subrange(0, 3) =~= c.tail_spec().0);
                assert(ys@.subrange(0, 3) =~= c.tail_spec().1);
                self.extend(&xs, &ys, 0)
            },
            Ok(Some(cuts)) => {
                let ts = if cuts.1.lt(cuts.0) {
                    [cuts.1, cuts.0]
                } else {
                    [cuts.0, cuts.1]
                };
                let mut xs: Vec<S> = Vec::new();
                let mut ys: Vec<S> = Vec::new();
                c.splitn(&ts, &mut xs, &mut ys);
                proof {
                    assert(ts@ =~= if cuts.1.lt_spec(cuts.0) {
                        seq![cuts.1, cuts.0]
                    } else {
                        seq![cuts.0, cuts.1]
                    });
                    c.lemma_splitn_shape(ts@);
                    assert(xs@ =~= c.splitn_spec(ts@).0);
                    assert(ys@ =~= c.splitn_spec(ts@).1);
                }
                self.extend(xs.as_slice(), ys.as_slice(), 1)
            },
        }
    }

    /// Closes the segment that is being drawn, with a line back to its first
    /// point where it does not end there, and finishes it.
    pub fn close(&mut self) -> (r: Result<(), Error>)
        requires
            old(self)@.wf(),
        ensures
            match old(self)@.close_spec() {
                Ok(b) => r is Ok && final(self)@ == b,
                Err(e) => r == Err::<(), Error>(e) && final(self)@ == old(self)@,
            },
            final(self)@.wf(),
    {
        match self.current {
            None => Err(Error::PathNotStarted),
            Some(segment) => {
                proof {
                    lemma_points_nonnegative_prefix(self@.segments, self@.segments.len() as int);
                }
                let n = self.x.len();
                let first = n - segment.length as usize;
                let first_x = self.x[first];
                let first_y = self.y[first];
                let last_x = self.x[n - 1];
                let last_y = self.y[n - 1];
                if !(approx_eq(first_x, last_x) && approx_eq(first_y, last_y)) {
                    let (xs, ys) = Self::line_as_cubic(last_x, last_y, first_x, first_y);
                    assert(xs@.subrange(0, 3) =~= xs@);
                    assert(ys@.subrange(0, 3) =~= ys@);
                    match self.extend(&xs, &ys, 0) {
                        Err(e) => {
                            return Err(e);
                        },
                        Ok(()) => {},
                    }
                }
                self.finish();
                Ok(())
            },
        }
    }

    /// The last point that was added, if any.
    pub fn cursor(&self) -> (r: Option<Point<S>>)
        requires
            self@.x.len() == self@.y.len(),
        ensures
            self@.x.len() == 0 ==> r is None,
            self@.x.len() > 0 ==> r == Some(Point { x: self@.x.last(), y: self@.y.last() }),
    {
        let n = self.x.len();
        if n == 0 {
            None
        } else {
            Some(Point { x: self.x[n - 1], y: self.y[n - 1] })
        }
    }

    /// The path that was drawn. A segment that is still being drawn is
    /// finished as it is.
    pub fn build(self) -> (r: Path<S>)
        requires
            self@.wf(),
        ensures
            r@ == self@.build_spec(),
            r@.wf(),
    {
        let mut done = self;
        done.finish();
        Path { segments: done.segments, x: done.x, y: done.y }
    }

    /// The inner control points and the end of the cubic curve that runs
    /// straight from `(x0, y0)` to `(x3, y3)`.
    pub fn line_as_cubic(x0: S, y0: S, x3: S, y3: S) -> (r: ([S; 3], [S; 3]))
        ensures
            r.0@ == line_as_cubic_spec(x0, y0, x3, y3).0,
            r.1@ == line_as_cubic_spec(x0, y0, x3, y3).1,
    {
        let dx = x3.sub(x0);
        let dy = y3.sub(y0);
        let xs = [x0.add(dx.mul(ratio(1, 4))), x0.add(dx.mul(ratio(3, 4))), x3];
        let ys = [y0.add(dy.mul(ratio(1, 4))), y0.add(dy.mul(ratio(3, 4))), y3];
        assert(xs@ =~= line_as_cubic_spec(x0, y0, x3, y3).0);
        assert(ys@ =~= line_as_cubic_spec(x0, y0, x3, y3).1);
        (xs, ys)
    }
}

/// A count of points is never negative.
pub proof fn lemma_points_nonnegative_prefix(segments: Seq<Segment>, k: int)
    ensures
        points_before_spec(segments, k) >= 0,
    decreases k,
{
    if k > 0 {
        lemma_points_nonnegative_prefix(segments, k - 1);
    }
}

} // verus!
