//! Single-precision numbers carried as bit patterns.
//!
//! The library moves coordinates around and compares them, but never does
//! arithmetic on them. A coordinate is therefore kept as the 32 bits of its
//! IEEE 754 binary32 encoding, and equality and order are defined on that
//! encoding: a sign bit, and below it a 31-bit magnitude that grows with the
//! absolute value of the number it encodes.

use std::cmp::Ordering;
use vstd::prelude::*;

verus! {

/// The bit that carries the sign.
pub const SIGN_BIT: u32 = 0x8000_0000;

/// The magnitude of the two infinities. Every larger magnitude encodes a NaN.
pub const INFINITY_MAGNITUDE: u32 = 0x7f80_0000;

/// The encoding of `0.0`.
pub const ZERO_BITS: u32 = 0;

/// The encoding of `0.5`.
pub const HALF_BITS: u32 = 0x3f00_0000;

/// The encoding of `1.0`.
pub const ONE_BITS: u32 = 0x3f80_0000;

/// The encoding of `90.0`.
pub const NINETY_BITS: u32 = 0x42b4_0000;

/// An IEEE 754 binary32 number, held as its bit pattern.
#[derive(Clone, Copy, Debug)]
pub struct Scalar {
    pub bits: u32,
}

impl Scalar {
    /// The encoding without its sign bit.
    pub open spec fn magnitude(self) -> int {
        if self.bits >= SIGN_BIT {
            self.bits - SIGN_BIT
        } else {
            self.bits as int
        }
    }

    /// Whether the sign bit is set. It can be set on a zero and on a NaN.
    pub open spec fn is_sign_negative(self) -> bool {
        self.bits >= SIGN_BIT
    }

    /// Whether the pattern encodes no number at all.
    pub open spec fn spec_is_nan(&self) -> bool {
        self.magnitude() > INFINITY_MAGNITUDE
    }

    /// Whether the pattern encodes a number that is neither NaN nor infinite.
    pub open spec fn is_finite(self) -> bool {
        self.magnitude() < INFINITY_MAGNITUDE
    }

    /// Where the encoded number stands among all encoded numbers: the
    /// magnitude, negated under a sign bit. Both zeros have rank 0, and of two
    /// numbers the smaller one has the smaller rank.
    pub open spec fn rank(self) -> int {
        if self.is_sign_negative() {
            -self.magnitude()
        } else {
            self.magnitude()
        }
    }

    /// Numeric equality: a NaN equals nothing, not even itself, and the two
    /// zeros are equal.
    pub open spec fn same(self, other: Scalar) -> bool {
        !self.is_nan() && !other.is_nan() && self.rank() == other.rank()
    }

    /// Numeric strict order: a NaN is below nothing and above nothing.
    pub open spec fn below(self, other: Scalar) -> bool {
        !self.is_nan() && !other.is_nan() && self.rank() < other.rank()
    }

    /// Wraps a bit pattern.
    pub fn from_bits(bits: u32) -> (r: Scalar)
        ensures
            r.bits == bits,
    {
        Scalar { bits }
    }

    /// The bit pattern.
    pub fn to_bits(&self) -> (r: u32)
        ensures
            r == self.bits,
    {
        self.bits
    }

    /// The magnitude as a machine integer.
    fn magnitude_bits(&self) -> (r: u32)
        ensures
            r == self.magnitude(),
    {
        let bits = self.bits;
        assert(bits & 0x7fff_ffff == (if bits >= 0x8000_0000u32 {
            (bits - 0x8000_0000u32) as u32
        } else {
            bits
        })) by (bit_vector);
        bits & 0x7fff_ffff
    }

    /// Tells whether the pattern encodes no number at all.
    #[verifier::when_used_as_spec(spec_is_nan)]
    pub fn is_nan(&self) -> (r: bool)
        ensures
            r == self.spec_is_nan(),
    {
        self.magnitude_bits() > INFINITY_MAGNITUDE
    }
}

impl PartialEq for Scalar {
    fn eq(&self, other: &Scalar) -> (r: bool) {
        let m: u32 = self.magnitude_bits();
        let n: u32 = other.magnitude_bits();
        m <= INFINITY_MAGNITUDE && n <= INFINITY_MAGNITUDE && (self.bits == other.bits || (m == 0
            && n == 0))
    }
}

impl vstd::std_specs::cmp::PartialEqSpecImpl for Scalar {
    open spec fn obeys_eq_spec() -> bool {
        true
    }

    open spec fn eq_spec(&self, other: &Scalar) -> bool {
        self.same(*other)
    }
}

impl PartialOrd for Scalar {
    fn partial_cmp(&self, other: &Scalar) -> (r: Option<Ordering>) {
        let m: u32 = self.magnitude_bits();
        let n: u32 = other.magnitude_bits();
        if m > INFINITY_MAGNITUDE || n > INFINITY_MAGNITUDE {
            None
        } else if self.bits >= SIGN_BIT {
            if other.bits >= SIGN_BIT {
                if n < m {
                    Some(Ordering::Less)
                } else if n == m {
                    Some(Ordering::Equal)
                } else {
                    Some(Ordering::Greater)
                }
            } else if m == 0 && n == 0 {
                Some(Ordering::Equal)
            } else {
                Some(Ordering::Less)
            }
        } else if other.bits >= SIGN_BIT {
            if m == 0 && n == 0 {
                Some(Ordering::Equal)
            } else {
                Some(Ordering::Greater)
            }
        } else if m < n {
            Some(Ordering::Less)
        } else if m == n {
            Some(Ordering::Equal)
        } else {
            Some(Ordering::Greater)
        }
    }
}

impl vstd::std_specs::cmp::PartialOrdSpecImpl for Scalar {
    open spec fn obeys_partial_cmp_spec() -> bool {
        true
    }

    open spec fn partial_cmp_spec(&self, other: &Scalar) -> Option<Ordering> {
        if self.below(*other) {
            Some(Ordering::Less)
        } else if other.below(*self) {
            Some(Ordering::Greater)
        } else if self.same(*other) {
            Some(Ordering::Equal)
        } else {
            None
        }
    }
}

/// Equality of numbers is symmetric and transitive, and holds of a number
/// and itself unless it is a NaN.
pub proof fn lemma_same_is_partial_equivalence(a: Scalar, b: Scalar, c: Scalar)
    ensures
        a.same(b) == b.same(a),
        a.same(b) && b.same(c) ==> a.same(c),
        a.same(a) == !a.is_nan(),
{
}

/// Of two numbers that are no NaN, exactly one of three holds: the first is
/// below the second, they are equal, or the second is below the first.
pub proof fn lemma_order_is_total_off_nan(a: Scalar, b: Scalar)
    requires
        !a.is_nan(),
        !b.is_nan(),
    ensures
        a.below(b) || a.same(b) || b.below(a),
        !(a.below(b) && a.same(b)),
        !(a.below(b) && b.below(a)),
        !(a.same(b) && b.below(a)),
{
}

} // verus!
