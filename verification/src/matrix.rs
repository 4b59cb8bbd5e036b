//! Four-component vectors and 4x4 matrices, as far as they are moved around.

use crate::scalar::Scalar;
use crate::scalar::ONE_BITS;
use crate::scalar::ZERO_BITS;
use vstd::prelude::*;

verus! {

/// A vector of four components.
#[derive(Clone, Copy, Debug)]
pub struct Vector4 {
    pub x: Scalar,
    pub y: Scalar,
    pub z: Scalar,
    pub w: Scalar,
}

/// A point in homogeneous coordinates.
#[derive(Clone, Copy, Debug)]
pub struct Point4 {
    pub coords: Vector4,
}

/// A matrix of four rows.
#[derive(Clone, Copy, Debug)]
pub struct Matrix4 {
    pub a: Vector4,
    pub b: Vector4,
    pub c: Vector4,
    pub d: Vector4,
}

/// What a coordinate system is anchored to.
#[derive(Clone, Copy, Debug, PartialEq, Eq)]
pub enum Origin {
    Point4,
    CoSys,
}

/// A coordinate system: its anchor and its three axes.
#[derive(Clone, Copy, Debug)]
pub struct CoSys {
    pub origin: Origin,
    pub i: Vector4,
    pub j: Vector4,
    pub k: Vector4,
}

impl Vector4 {
    /// Component `j`, counted from 0: `x`, `y`, `z`, `w`.
    pub open spec fn component(self, j: int) -> Scalar {
        if j == 0 {
            self.x
        } else if j == 1 {
            self.y
        } else if j == 2 {
            self.z
        } else {
            self.w
        }
    }

    /// The vector with the given components.
    pub fn new(x: Scalar, y: Scalar, z: Scalar, w: Scalar) -> (v: Vector4)
        ensures
            v == (Vector4 { x, y, z, w }),
    {
        Vector4 { x, y, z, w }
    }

    /// The vector whose components are the four entries of `slice`.
    pub fn from_slice(slice: [Scalar; 4]) -> (v: Vector4)
        ensures
            forall|j: int| 0 <= j < 4 ==> v.component(j) == #[trigger] slice@[j],
    {
        Vector4 { x: slice[0], y: slice[1], z: slice[2], w: slice[3] }
    }

    /// The four components as an array.
    pub fn to_slice(&self) -> (slice: [Scalar; 4])
        ensures
            forall|j: int| 0 <= j < 4 ==> #[trigger] slice@[j] == self.component(j),
    {
        [self.x, self.y, self.z, self.w]
    }
}

impl Matrix4 {
    /// Row `i`, counted from 0: `a`, `b`, `c`, `d`.
    pub open spec fn row(self, i: int) -> Vector4 {
        if i == 0 {
            self.a
        } else if i == 1 {
            self.b
        } else if i == 2 {
            self.c
        } else {
            self.d
        }
    }

    /// The entry in row `i` and column `j`.
    pub open spec fn entry(self, i: int, j: int) -> Scalar {
        self.row(i).component(j)
    }

    /// `self` is `other` mirrored at its diagonal.
    pub open spec fn is_transpose_of(self, other: Matrix4) -> bool {
        forall|i: int, j: int|
            0 <= i < 4 && 0 <= j < 4 ==> #[trigger] self.entry(i, j) == other.entry(j, i)
    }

    /// The matrix whose rows are the four vectors of `slice`.
    pub fn from_slice(slice: &[Vector4; 4]) -> (m: Matrix4)
        ensures
            forall|i: int| 0 <= i < 4 ==> m.row(i) == #[trigger] slice@[i],
    {
        Matrix4 { a: slice[0], b: slice[1], c: slice[2], d: slice[3] }
    }

    /// The matrix whose entries are those of `slice`, row by row.
    pub fn from_slices(slice: [[Scalar; 4]; 4]) -> (m: Matrix4)
        ensures
            forall|i: int, j: int|
                0 <= i < 4 && 0 <= j < 4 ==> m.entry(i, j) == #[trigger] slice@[i]@[j],
    {
        Matrix4 {
            a: Vector4::from_slice(slice[0]),
            b: Vector4::from_slice(slice[1]),
            c: Vector4::from_slice(slice[2]),
            d: Vector4::from_slice(slice[3]),
        }
    }

    /// The matrix mirrored at its diagonal: rows become columns.
    pub fn transpose(&self) -> (t: Matrix4)
        ensures
            t.is_transpose_of(*self),
    {
        Matrix4 {
            a: Vector4 { x: self.a.x, y: self.b.x, z: self.c.x, w: self.d.x },
            b: Vector4 { x: self.a.y, y: self.b.y, z: self.c.y, w: self.d.y },
            c: Vector4 { x: self.a.z, y: self.b.z, z: self.c.z, w: self.d.z },
            d: Vector4 { x: self.a.w, y: self.b.w, z: self.c.w, w: self.d.w },
        }
    }

    /// The matrix that scales the first three components by `factor` and
    /// keeps the fourth: `factor` three times and then `1.0` on the diagonal,
    /// `0.0` elsewhere.
    pub fn scalar(factor: Scalar) -> (m: Matrix4)
        ensures
            forall|i: int, j: int|
                0 <= i < 4 && 0 <= j < 4 ==> (#[trigger] m.entry(i, j)).bits == if i != j {
                    ZERO_BITS
                } else if i < 3 {
                    factor.bits
                } else {
                    ONE_BITS
                },
    {
        let zero = Scalar::from_bits(ZERO_BITS);
        let one = Scalar::from_bits(ONE_BITS);
        Matrix4::from_slices(
            [
                [factor, zero, zero, zero],
                [zero, factor, zero, zero],
                [zero, zero, factor, zero],
                [zero, zero, zero, one],
            ],
        )
    }
}

/// Two matrices with the same sixteen entries are the same matrix.
pub proof fn lemma_matrix_by_entries(m: Matrix4, n: Matrix4)
    requires
        forall|i: int, j: int|
            0 <= i < 4 && 0 <= j < 4 ==> #[trigger] m.entry(i, j) == n.entry(i, j),
    ensures
        m == n,
{
    assert(m.entry(0, 0) == n.entry(0, 0));
    assert(m.entry(0, 1) == n.entry(0, 1));
    assert(m.entry(0, 2) == n.entry(0, 2));
    assert(m.entry(0, 3) == n.entry(0, 3));
    assert(m.entry(1, 0) == n.entry(1, 0));
    assert(m.entry(1, 1) == n.entry(1, 1));
    assert(m.entry(1, 2) == n.entry(1, 2));
    assert(m.entry(1, 3) == n.entry(1, 3));
    assert(m.entry(2, 0) == n.entry(2, 0));
    assert(m.entry(2, 1) == n.entry(2, 1));
    assert(m.entry(2, 2) == n.entry(2, 2));
    assert(m.entry(2, 3) == n.entry(2, 3));
    assert(m.entry(3, 0) == n.entry(3, 0));
    assert(m.entry(3, 1) == n.entry(3, 1));
    assert(m.entry(3, 2) == n.entry(3, 2));
    assert(m.entry(3, 3) == n.entry(3, 3));
}

/// Mirroring a matrix twice gives the matrix back.
pub proof fn lemma_transpose_twice(m: Matrix4, once: Matrix4, twice: Matrix4)
    requires
        once.is_transpose_of(m),
        twice.is_transpose_of(once),
    ensures
        twice == m,
{
    assert forall|i: int, j: int| 0 <= i < 4 && 0 <= j < 4 implies #[trigger] twice.entry(i, j)
        == m.entry(i, j) by {
        assert(twice.entry(i, j) == once.entry(j, i));
        assert(once.entry(j, i) == m.entry(i, j));
    }
    lemma_matrix_by_entries(twice, m);
}

} // verus!
