//! Axis-aligned rectangles.
use crate::point::{Point, Vec2};
use crate::scalar::{max, max_spec, min, min_spec, zero, zero_spec, Scalar};
use vstd::prelude::*;

verus! {

/// An axis-aligned rectangle. `left` and `top` are its smallest, `right` and
/// `bottom` its largest coordinates.
#[derive(Clone, Copy, Debug, PartialEq)]
pub struct Rect<S: Scalar> {
    pub left: S,
    pub right: S,
    pub top: S,
    pub bottom: S,
}

impl<S: Scalar> Rect<S> {
    /// The rectangle with the given edges.
    pub fn new(left: S, right: S, top: S, bottom: S) -> (r: Self)
        ensures
            r == (Rect { left, right, top, bottom }),
    {
        Rect { left, right, top, bottom }
    }

    /// The rectangle whose four edges are zero.
    pub open spec fn empty_spec() -> Self {
        Rect { left: zero_spec(), right: zero_spec(), top: zero_spec(), bottom: zero_spec() }
    }

    /// The rectangle whose four edges are zero.
    pub fn empty() -> (r: Self)
        ensures
            r == Self::empty_spec(),
    {
        Rect { left: zero(), right: zero(), top: zero(), bottom: zero() }
    }

    /// `right - left`.
    pub open spec fn width_spec(self) -> S {
        self.right.sub_spec(self.left)
    }

    /// `right - left`.
    pub fn width(&self) -> (r: S)
        ensures
            r == self.width_spec(),
    {
        self.right.sub(self.left)
    }

    /// `bottom - top`.
    pub open spec fn height_spec(self) -> S {
        self.bottom.sub_spec(self.top)
    }

    /// `bottom - top`.
    pub fn height(&self) -> (r: S)
        ensures
            r == self.height_spec(),
    {
        self.bottom.sub(self.top)
    }

    /// `width * height`.
    pub open spec fn area_spec(self) -> S {
        self.width_spec().mul_spec(self.height_spec())
    }

    /// `width * height`.
    pub fn area(&self) -> (r: S)
        ensures
            r == self.area_spec(),
    {
        self.width().mul(self.height())
    }

    /// The corner with the smallest coordinates.
    pub fn origin(&self) -> (r: Point<S>)
        ensures
            r == (Point { x: self.left, y: self.top }),
    {
        Point { x: self.left, y: self.top }
    }

    /// The middle of the rectangle: `((left + right) / 2, (top + bottom) / 2)`.
    pub open spec fn centroid_spec(self) -> Point<S> {
        Point {
            x: self.left.add_spec(self.right).div_spec(S::from_int_spec(2)),
            y: self.top.add_spec(self.bottom).div_spec(S::from_int_spec(2)),
        }
    }

    /// The middle of the rectangle: `((left + right) / 2, (top + bottom) / 2)`.
    pub fn centroid(&self) -> (r: Point<S>)
        ensures
            r == self.centroid_spec(),
    {
        Point {
            x: self.left.add(self.right).div(S::from_int(2)),
            y: self.top.add(self.bottom).div(S::from_int(2)),
        }
    }

    /// Whether the two rectangles share a point: each starts, on both axes,
    /// below or at the end of the other.
    pub open spec fn intersects_with_spec(self, rhs: Self) -> bool {
        &&& self.left.le_spec(rhs.right)
        &&& self.top.le_spec(rhs.bottom)
        &&& rhs.left.le_spec(self.right)
        &&& rhs.top.le_spec(self.bottom)
    }

    /// Whether the two rectangles share a point: each starts, on both axes,
    /// below or at the end of the other.
    pub fn intersects_with(&self, rhs: &Self) -> (r: bool)
        ensures
            r == self.intersects_with_spec(*rhs),
    {
        self.left.le(rhs.right) && self.top.le(rhs.bottom) && rhs.left.le(self.right)
            && rhs.top.le(self.bottom)
    }

    /// The smallest rectangle that holds both: the smaller `left` and `top`,
    /// the larger `right` and `bottom`.
    pub open spec fn union_spec(self, rhs: Self) -> Self {
        Rect {
            left: min_spec(self.left, rhs.left),
            right: max_spec(self.right, rhs.right),
            top: min_spec(self.top, rhs.top),
            bottom: max_spec(self.bottom, rhs.bottom),
        }
    }

    /// The smallest rectangle that holds both: the smaller `left` and `top`,
    /// the larger `right` and `bottom`.
    pub fn union(self, rhs: Self) -> (r: Self)
        ensures
            r == self.union_spec(rhs),
    {
        Rect {
            left: min(self.left, rhs.left),
            right: max(self.right, rhs.right),
            top: min(self.top, rhs.top),
            bottom: max(self.bottom, rhs.bottom),
        }
    }

    /// The rectangle that both share, or the empty rectangle where they share
    /// nothing.
    pub open spec fn intersection_spec(self, rhs: Self) -> Self {
        if !self.intersects_with_spec(rhs) {
            Self::empty_spec()
        } else {
            Rect {
                left: max_spec(self.left, rhs.left),
                right: min_spec(self.right, rhs.right),
                top: max_spec(self.top, rhs.top),
                bottom: min_spec(self.bottom, rhs.bottom),
            }
        }
    }

    /// The rectangle that both share, or the empty rectangle where they share
    /// nothing.
    pub fn intersection(self, rhs: Self) -> (r: Self)
        ensures
            r == self.intersection_spec(rhs),
    {
        if !self.intersects_with(&rhs) {
            Self::empty()
        } else {
            Rect {
                left: max(self.left, rhs.left),
                right: min(self.right, rhs.right),
                top: max(self.top, rhs.top),
                bottom: min(self.bottom, rhs.bottom),
            }
        }
    }

    /// The rectangle moved by `by`.
    pub open spec fn translated_spec(self, by: Vec2<S>) -> Self {
        Rect {
            left: self.left.add_spec(by.x),
            right: self.right.add_spec(by.x),
            top: self.top.add_spec(by.y),
            bottom: self.bottom.add_spec(by.y),
        }
    }

    /// The rectangle moved by `by`.
    pub fn translated(self, by: Vec2<S>) -> (r: Self)
        ensures
            r == self.translated_spec(by),
    {
        Rect {
            left: self.left.add(by.x),
            right: self.right.add(by.x),
            top: self.top.add(by.y),
            bottom: self.bottom.add(by.y),
        }
    }

    /// The extent of the rectangle: its width and its height.
    pub fn extent(&self) -> (r: Vec2<S>)
        ensures
            r == (Vec2 { x: self.width_spec(), y: self.height_spec() }),
    {
        Vec2 { x: self.width(), y: self.height() }
    }

    /// The rectangle `acc` stretched to hold the points `k ..`.
    pub open spec fn enclosing_from_spec(points: Seq<Point<S>>, k: int, acc: Self) -> Self
        decreases points.len() - k,
    {
        if k < 0 || k >= points.len() {
            acc
        } else {
            Self::enclosing_from_spec(
                points,
                k + 1,
                Rect {
                    left: min_spec(acc.left, points[k].x),
                    right: max_spec(acc.right, points[k].x),
                    top: min_spec(acc.top, points[k].y),
                    bottom: max_spec(acc.bottom, points[k].y),
                },
            )
        }
    }

    /// The smallest rectangle that holds the origin and all the points; the
    /// empty rectangle where there are none.
    pub fn enclosing(points: &[Point<S>]) -> (r: Self)
        ensures
            r == Self::enclosing_from_spec(points@, 0, Self::empty_spec()),
    {
        let mut acc = Self::empty();
        let mut k: usize = 0;
        while k < points.len()
            invariant
                0 <= k <= points@.len(),
                Self::enclosing_from_spec(points@, k as int, acc) == Self::enclosing_from_spec(
                    points@,
                    0,
                    Self::empty_spec(),
                ),
            decreases points@.len() - k,
        {
            let p = points[k];
            acc = Rect {
                left: min(acc.left, p.x),
                right: max(acc.right, p.x),
                top: min(acc.top, p.y),
                bottom: max(acc.bottom, p.y),
            };
            k = k + 1;
        }
        acc
    }

    /// Whether no coordinate of `p` lies strictly outside the rectangle.
    pub open spec fn holds_spec(self, p: Point<S>) -> bool {
        &&& !p.x.lt_spec(self.left)
        &&& !self.right.lt_spec(p.x)
        &&& !p.y.lt_spec(self.top)
        &&& !self.bottom.lt_spec(p.y)
    }
}

} // verus!
