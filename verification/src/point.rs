//! Partial coordinates.
//!
//! A `Point` is a coordinate whose three axes are each either known (a
//! fixed-point value, see `num`) or unknown. Axes are independent: folding
//! two points by minimum or maximum works axis by axis, an unknown axis
//! never participates, and "unknown vs known" yields the known value.

use vstd::prelude::*;

verus! {

/// A coordinate that may be incompletely specified: each axis is either a
/// known fixed-point value or unknown.
#[derive(Clone, Copy, Debug, PartialEq)]
pub struct Point {
    pub x: Option<i64>,
    pub y: Option<i64>,
    pub z: Option<i64>,
}

/// Axis-wise minimum: known vs known takes the smaller value, unknown vs
/// known takes the known value, unknown vs unknown stays unknown.
pub open spec fn opt_min(a: Option<i64>, b: Option<i64>) -> Option<i64> {
    match a {
        Option::None => b,
        Option::Some(av) => match b {
            Option::None => Option::Some(av),
            Option::Some(bv) => Option::Some(
                if av <= bv {
                    av
                } else {
                    bv
                },
            ),
        },
    }
}

/// Axis-wise maximum, with the same treatment of unknown axes as `opt_min`.
pub open spec fn opt_max(a: Option<i64>, b: Option<i64>) -> Option<i64> {
    match a {
        Option::None => b,
        Option::Some(av) => match b {
            Option::None => Option::Some(av),
            Option::Some(bv) => Option::Some(
                if av >= bv {
                    av
                } else {
                    bv
                },
            ),
        },
    }
}

/// The point with all three axes unknown.
pub open spec fn point_empty() -> Point {
    Point { x: Option::None, y: Option::None, z: Option::None }
}

/// Axis-wise minimum of two partial points.
pub open spec fn point_min(a: Point, b: Point) -> Point {
    Point { x: opt_min(a.x, b.x), y: opt_min(a.y, b.y), z: opt_min(a.z, b.z) }
}

/// Axis-wise maximum of two partial points.
pub open spec fn point_max(a: Point, b: Point) -> Point {
    Point { x: opt_max(a.x, b.x), y: opt_max(a.y, b.y), z: opt_max(a.z, b.z) }
}

/// True when no axis is known.
pub open spec fn point_is_empty(p: Point) -> bool {
    p.x is None && p.y is None && p.z is None
}

fn min_axis(a: Option<i64>, b: Option<i64>) -> (r: Option<i64>)
    ensures
        r == opt_min(a, b),
{
    match a {
        Option::None => b,
        Option::Some(av) => match b {
            Option::None => Option::Some(av),
            Option::Some(bv) => Option::Some(
                if av <= bv {
                    av
                } else {
                    bv
                },
            ),
        },
    }
}

fn max_axis(a: Option<i64>, b: Option<i64>) -> (r: Option<i64>)
    ensures
        r == opt_max(a, b),
{
    match a {
        Option::None => b,
        Option::Some(av) => match b {
            Option::None => Option::Some(av),
            Option::Some(bv) => Option::Some(
                if av >= bv {
                    av
                } else {
                    bv
                },
            ),
        },
    }
}

impl Point {
    /// The point with all three axes unknown.
    pub fn empty() -> (r: Point)
        ensures
            r == point_empty(),
    {
        Point { x: Option::None, y: Option::None, z: Option::None }
    }

    /// A point with the given axes.
    pub fn new(x: Option<i64>, y: Option<i64>, z: Option<i64>) -> (r: Point)
        ensures
            r == (Point { x, y, z }),
    {
        Point { x, y, z }
    }

    /// Axis-wise minimum of `self` and `other`.
    pub fn min(&self, other: Point) -> (r: Point)
        ensures
            r == point_min(*self, other),
    {
        Point {
            x: min_axis(self.x, other.x),
            y: min_axis(self.y, other.y),
            z: min_axis(self.z, other.z),
        }
    }

    /// Axis-wise maximum of `self` and `other`.
    pub fn max(&self, other: Point) -> (r: Point)
        ensures
            r == point_max(*self, other),
    {
        Point {
            x: max_axis(self.x, other.x),
            y: max_axis(self.y, other.y),
            z: max_axis(self.z, other.z),
        }
    }

    /// True when no axis is known.
    pub fn is_empty(&self) -> (r: bool)
        ensures
            r == point_is_empty(*self),
    {
        self.x.is_none() && self.y.is_none() && self.z.is_none()
    }
}

} // verus!
