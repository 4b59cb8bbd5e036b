//! Points and triangles in the plane.

use crate::scalar::Scalar;
use vstd::prelude::*;

verus! {

/// A point in the plane, by its two Cartesian coordinates.
#[derive(Clone, Copy, Debug)]
pub struct Point2D {
    pub x: Scalar,
    pub y: Scalar,
}

/// Three points in the plane, in a fixed order.
#[derive(Clone, Copy, Debug)]
pub struct Triangle2D {
    pub a: Point2D,
    pub b: Point2D,
    pub c: Point2D,
}

impl Point2D {
    /// The origin.
    pub fn new() -> (p: Point2D)
        ensures
            p.x.bits == 0,
            p.y.bits == 0,
    {
        Point2D { x: Scalar::from_bits(0), y: Scalar::from_bits(0) }
    }

    /// The `x` of this point where it is below the `x` of `other`, else the
    /// `x` of `other`.
    pub fn smaller_x(&self, other: &Point2D) -> (r: Scalar)
        ensures
            r == if self.x.below(other.x) {
                self.x
            } else {
                other.x
            },
    {
        if self.x < other.x {
            return self.x;
        }
        other.x
    }

    /// The `x` of this point where it is above the `x` of `other`, else the
    /// `x` of `other`.
    pub fn greater_x(&self, other: &Point2D) -> (r: Scalar)
        ensures
            r == if other.x.below(self.x) {
                self.x
            } else {
                other.x
            },
    {
        if self.x > other.x {
            return self.x;
        }
        other.x
    }
}

impl Triangle2D {
    /// No corner has a NaN for its `y`.
    pub open spec fn has_heights(self) -> bool {
        !self.a.y.is_nan() && !self.b.y.is_nan() && !self.c.y.is_nan()
    }

    /// The corner that `highest_pt` picks: `a`, unless `b` lies above it, and
    /// `c` where it lies above the one picked of these two.
    pub open spec fn spec_highest_pt(self) -> Point2D {
        let g = if self.a.y.below(self.b.y) {
            self.b
        } else {
            self.a
        };
        if g.y.below(self.c.y) {
            self.c
        } else {
            g
        }
    }

    /// The corner with the greatest `y`; of several such corners, the first.
    /// With a NaN among the heights the corner picked need not be the
    /// highest.
    pub fn highest_pt(&self) -> (g: Point2D)
        ensures
            g == self.spec_highest_pt(),
            g == self.a || g == self.b || g == self.c,
            self.has_heights() ==> !g.y.below(self.a.y) && !g.y.below(self.b.y) && !g.y.below(
                self.c.y,
            ),
            self.has_heights() && g != self.a ==> self.a.y.below(g.y),
            self.has_heights() && g != self.a && g != self.b ==> self.b.y.below(g.y),
    {
        let mut g = self.a;
        if self.b.y > g.y {
            g = self.b;
        }
        if self.c.y > g.y {
            g = self.c;
        }
        g
    }
}

} // verus!
