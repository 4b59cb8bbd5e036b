//! Points and triangles in space.

use crate::scalar::Scalar;
use vstd::prelude::*;

verus! {

/// A point in space, by its three Cartesian coordinates.
#[derive(Clone, Copy, Debug)]
pub struct Point3D {
    pub x: Scalar,
    pub y: Scalar,
    pub z: Scalar,
}

/// Three points in space, in a fixed order.
#[derive(Clone, Copy, Debug)]
pub struct Triangle3D {
    pub a: Point3D,
    pub b: Point3D,
    pub c: Point3D,
}

/// How two triangles are held against each other.
#[derive(Clone, Copy, Debug, PartialEq, Eq)]
pub enum Matching {
    /// Each corner of the one is looked up among the corners of the other on
    /// its own.
    Loose,
    /// The corners of the one are the corners of the other, one for one, in
    /// some order.
    Strict,
}

impl Default for Matching {
    /// Loose matching.
    fn default() -> (how: Matching)
        ensures
            how == Matching::Loose,
    {
        Matching::Loose
    }
}

impl Point3D {
    /// Equality of points: the coordinates are equal as numbers, axis by axis.
    pub open spec fn same(self, other: Point3D) -> bool {
        self.x.same(other.x) && self.y.same(other.y) && self.z.same(other.z)
    }

    /// No coordinate is a NaN. Such a point equals itself.
    pub open spec fn is_nan_free(self) -> bool {
        !self.x.is_nan() && !self.y.is_nan() && !self.z.is_nan()
    }

    /// The origin.
    pub fn new() -> (p: Point3D)
        ensures
            p.x.bits == 0,
            p.y.bits == 0,
            p.z.bits == 0,
    {
        Point3D { x: Scalar::from_bits(0), y: Scalar::from_bits(0), z: Scalar::from_bits(0) }
    }

    /// The point with the given coordinates.
    pub fn from_coords(x: Scalar, y: Scalar, z: Scalar) -> (p: Point3D)
        ensures
            p == (Point3D { x, y, z }),
    {
        Point3D { x, y, z }
    }
}

impl PartialEq for Point3D {
    fn eq(&self, other: &Point3D) -> (r: bool) {
        self.x == other.x && self.y == other.y && self.z == other.z
    }
}

impl vstd::std_specs::cmp::PartialEqSpecImpl for Point3D {
    open spec fn obeys_eq_spec() -> bool {
        true
    }

    open spec fn eq_spec(&self, other: &Point3D) -> bool {
        self.same(*other)
    }
}

impl Triangle3D {
    /// Some corner of the triangle equals `p`.
    pub open spec fn spec_contains(self, p: Point3D) -> bool {
        self.a.same(p) || self.b.same(p) || self.c.same(p)
    }

    /// Every corner of `self` equals some corner of `other`. Each corner is
    /// looked up on its own, so that two corners of `self` may be found in
    /// one and the same corner of `other`.
    pub open spec fn spec_matches(self, other: Triangle3D) -> bool {
        other.spec_contains(self.a) && other.spec_contains(self.b) && other.spec_contains(
            self.c,
        )
    }

    /// The corners of `self` are the corners of `other`, one for one, in one
    /// of the six orders.
    pub open spec fn spec_matches_strictly(self, other: Triangle3D) -> bool {
        ||| self.a.same(other.a) && self.b.same(other.b) && self.c.same(other.c)
        ||| self.a.same(other.a) && self.b.same(other.c) && self.c.same(other.b)
        ||| self.a.same(other.b) && self.b.same(other.a) && self.c.same(other.c)
        ||| self.a.same(other.b) && self.b.same(other.c) && self.c.same(other.a)
        ||| self.a.same(other.c) && self.b.same(other.a) && self.c.same(other.b)
        ||| self.a.same(other.c) && self.b.same(other.b) && self.c.same(other.a)
    }

    /// `self` matches `other`, loosely or strictly.
    pub open spec fn spec_matches_by(self, other: Triangle3D, how: Matching) -> bool {
        match how {
            Matching::Loose => self.spec_matches(other),
            Matching::Strict => self.spec_matches_strictly(other),
        }
    }

    /// `self` matches some triangle of `list`, loosely or strictly.
    pub open spec fn spec_is_in_by(self, list: Seq<Triangle3D>, how: Matching) -> bool {
        exists|i: int| 0 <= i < list.len() && self.spec_matches_by(#[trigger] list[i], how)
    }

    /// `self` matches some triangle of `list`.
    pub open spec fn spec_is_in(self, list: Seq<Triangle3D>) -> bool {
        self.spec_is_in_by(list, Matching::Loose)
    }

    /// The same corners in the same order.
    pub open spec fn same(self, other: Triangle3D) -> bool {
        self.a.same(other.a) && self.b.same(other.b) && self.c.same(other.c)
    }

    /// No coordinate of any corner is a NaN.
    pub open spec fn is_nan_free(self) -> bool {
        self.a.is_nan_free() && self.b.is_nan_free() && self.c.is_nan_free()
    }

    /// How many different points the corners are: 1, 2 or 3. A corner with a
    /// NaN coordinate differs from every corner.
    pub open spec fn distinct_corners(self) -> nat {
        if self.a.same(self.b) && self.a.same(self.c) {
            1
        } else if self.a.same(self.b) || self.a.same(self.c) || self.b.same(self.c) {
            2
        } else {
            3
        }
    }

    /// Every corner of `self` is a corner of `other`, and `other` has more
    /// different corners than `self`.
    pub open spec fn falls_short_of(self, other: Triangle3D) -> bool {
        self.spec_matches(other) && self.distinct_corners() < other.distinct_corners()
    }

    /// Tells whether some corner equals `p`.
    pub fn contains(&self, p: &Point3D) -> (r: bool)
        ensures
            r == self.spec_contains(*p),
    {
        self.a == *p || self.b == *p || self.c == *p
    }

    /// Tells whether both points are corners.
    pub fn contains_both(&self, p: &Point3D, q: &Point3D) -> (r: bool)
        ensures
            r == (self.spec_contains(*p) && self.spec_contains(*q)),
    {
        self.contains(p) && self.contains(q)
    }

    /// Tells whether all three points are corners.
    pub fn contains_all(&self, p: &Point3D, q: &Point3D, r: &Point3D) -> (all: bool)
        ensures
            all == (self.spec_contains(*p) && self.spec_contains(*q) && self.spec_contains(*r)),
    {
        self.contains(p) && self.contains(q) && self.contains(r)
    }

    /// Tells whether every corner of `self` equals some corner of `other`.
    pub fn matches(&self, other: &Triangle3D) -> (r: bool)
        ensures
            r == self.spec_matches(*other),
    {
        (self.a == other.a || self.a == other.b || self.a == other.c) && (self.b == other.a
            || self.b == other.b || self.b == other.c) && (self.c == other.a || self.c
            == other.b || self.c == other.c)
    }

    /// Tells whether the corners of `self` are the corners of `other`, one
    /// for one, in some order.
    pub fn matches_strictly(&self, other: &Triangle3D) -> (r: bool)
        ensures
            r == self.spec_matches_strictly(*other),
    {
        if self.a == other.a {
            (self.b == other.b && self.c == other.c) || (self.b == other.c && self.c == other.b)
        } else if self.a == other.b {
            (self.b == other.a && self.c == other.c) || (self.b == other.c && self.c == other.a)
        } else if self.a == other.c {
            (self.b == other.a && self.c == other.b) || (self.b == other.b && self.c == other.a)
        } else {
            false
        }
    }

    /// Tells whether `self` matches `other`, loosely or strictly.
    pub fn matches_by(&self, other: &Triangle3D, how: Matching) -> (r: bool)
        ensures
            r == self.spec_matches_by(*other, how),
    {
        match how {
            Matching::Loose => self.matches(other),
            Matching::Strict => self.matches_strictly(other),
        }
    }

    /// Scans `list` from the front and tells whether `self` matches one of its
    /// triangles, loosely or strictly.
    pub fn is_in_by(&self, list: &Vec<Triangle3D>, how: Matching) -> (r: bool)
        ensures
            r == self.spec_is_in_by(list@, how),
    {
        let mut i: usize = 0;
        while i < list.len()
            invariant
                i <= list.len(),
                forall|k: int| 0 <= k < i ==> !self.spec_matches_by(#[trigger] list@[k], how),
            decreases list.len() - i,
        {
            if self.matches_by(&list[i], how) {
                return true;
            }
            i += 1;
        }
        false
    }

    /// Scans `list` from the front and tells whether `self` matches one of its
    /// triangles.
    pub fn is_in(&self, list: &Vec<Triangle3D>) -> (r: bool)
        ensures
            r == self.spec_is_in(list@),
    {
        self.is_in_by(list, Matching::Loose)
    }
}

impl PartialEq for Triangle3D {
    fn eq(&self, other: &Triangle3D) -> (r: bool) {
        self.a == other.a && self.b == other.b && self.c == other.c
    }
}

impl vstd::std_specs::cmp::PartialEqSpecImpl for Triangle3D {
    open spec fn obeys_eq_spec() -> bool {
        true
    }

    open spec fn eq_spec(&self, other: &Triangle3D) -> bool {
        self.same(*other)
    }
}

/// A triangle matches itself, loosely or strictly, exactly when none of its
/// coordinates is a NaN.
pub proof fn lemma_matches_reflexive(t: Triangle3D, how: Matching)
    ensures
        t.spec_matches_by(t, how) == t.is_nan_free(),
{
}

/// Loose matching does not depend on which of two triangles is asked, unless
/// one of them falls short of the other.
pub proof fn lemma_matches_symmetric(s: Triangle3D, t: Triangle3D)
    requires
        !s.falls_short_of(t),
        !t.falls_short_of(s),
    ensures
        s.spec_matches(t) == t.spec_matches(s),
{
}

/// Where one triangle falls short of another, it matches the other loosely
/// and the other does not match it.
pub proof fn lemma_matches_one_sided(s: Triangle3D, t: Triangle3D)
    requires
        s.falls_short_of(t),
    ensures
        s.spec_matches(t),
        !t.spec_matches(s),
{
}

/// Strict matching never depends on which of two triangles is asked.
pub proof fn lemma_strict_matches_symmetric(s: Triangle3D, t: Triangle3D)
    ensures
        s.spec_matches_strictly(t) == t.spec_matches_strictly(s),
{
}

/// Triangles that match strictly match loosely, both ways, and have equally
/// many different corners.
pub proof fn lemma_strict_matches_are_loose(s: Triangle3D, t: Triangle3D)
    requires
        s.spec_matches_strictly(t),
    ensures
        s.spec_matches(t),
        t.spec_matches(s),
        s.distinct_corners() == t.distinct_corners(),
{
}

/// A triangle with three different corners that matches another loosely
/// matches it strictly.
pub proof fn lemma_proper_matches_are_strict(s: Triangle3D, t: Triangle3D)
    requires
        s.distinct_corners() == 3,
        s.spec_matches(t),
    ensures
        s.spec_matches_strictly(t),
{
}

} // verus!
