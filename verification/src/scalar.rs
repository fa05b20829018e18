//! Single-precision values by their bit patterns.
//!
//! The tracer never does arithmetic on a distance or a barycentric weight: it
//! only orders them. An IEEE-754 binary32 value is ordered by its bits alone,
//! so a `Scalar` holds the bits and `lt` is the `<` of the format.
use vstd::prelude::*;

verus! {

/// The sign bit of a binary32 value.
pub const SIGN_BIT: u32 = 0x8000_0000;

/// The bits of positive infinity. A larger magnitude is not a number.
pub const INFINITY_BITS: u32 = 0x7f80_0000;

/// An IEEE-754 binary32 value, held as its 32 bits.
///
/// Two scalars are `==` when their bits are the same. That is finer than
/// equality of the numbers: the two zeros differ, and a NaN equals itself.
#[derive(Clone, Copy, Debug, PartialEq, Eq, Structural)]
pub struct Scalar {
    pub bits: u32,
}

/// The bits of `0.0`.
pub const ZERO_BITS: u32 = 0;

/// The bits of `1.0`.
pub const ONE_BITS: u32 = 0x3f80_0000;

/// The bits of `1e-5`, the tolerance of every geometric test.
pub const EPSILON_BITS: u32 = 0x3727_c5ac;

/// The bits of the largest finite value.
pub const MAX_BITS: u32 = 0x7f7f_ffff;

/// `0.0`.
pub open spec fn zero() -> Scalar {
    Scalar { bits: ZERO_BITS }
}

/// `1.0`.
pub open spec fn one() -> Scalar {
    Scalar { bits: ONE_BITS }
}

/// `1e-5`.
pub open spec fn epsilon() -> Scalar {
    Scalar { bits: EPSILON_BITS }
}

/// The largest finite value.
pub open spec fn max() -> Scalar {
    Scalar { bits: MAX_BITS }
}

impl Scalar {
    /// The bits without the sign.
    pub open spec fn magnitude(self) -> int {
        if self.bits >= SIGN_BIT {
            self.bits - SIGN_BIT
        } else {
            self.bits as int
        }
    }

    /// Whether the sign bit is set.
    pub open spec fn negative(self) -> bool {
        self.bits >= SIGN_BIT
    }

    /// Whether the bits encode no number.
    pub open spec fn is_nan(self) -> bool {
        self.magnitude() > INFINITY_BITS
    }

    /// Where a number stands among the numbers: magnitudes of one sign are
    /// ordered as their bits are, negative ones mirrored, both zeros at 0.
    pub open spec fn rank(self) -> int {
        if self.negative() {
            -self.magnitude()
        } else {
            self.magnitude()
        }
    }

    /// The `<` of the format: false as soon as either side is a NaN.
    pub open spec fn precedes(self, other: Scalar) -> bool {
        !self.is_nan() && !other.is_nan() && self.rank() < other.rank()
    }

    /// The scalar with these bits.
    pub fn from_bits(bits: u32) -> (s: Scalar)
        ensures
            s.bits == bits,
    {
        Scalar { bits }
    }

    /// The bits of this scalar.
    pub fn to_bits(self) -> (bits: u32)
        ensures
            bits == self.bits,
    {
        self.bits
    }

    /// Whether the bits encode no number.
    pub fn nan(self) -> (r: bool)
        ensures
            r == self.is_nan(),
    {
        let magnitude: u32 = if self.bits >= SIGN_BIT {
            self.bits - SIGN_BIT
        } else {
            self.bits
        };
        magnitude > INFINITY_BITS
    }

    /// Whether `self < other` as numbers.
    pub fn lt(self, other: Scalar) -> (r: bool)
        ensures
            r == self.precedes(other),
    {
        if self.nan() || other.nan() {
            return false;
        }
        let a: i64 = Self::signed(self.bits);
        let b: i64 = Self::signed(other.bits);
        a < b
    }

    fn signed(bits: u32) -> (r: i64)
        ensures
            r == (Scalar { bits }).rank(),
    {
        if bits >= SIGN_BIT {
            let magnitude: u32 = bits - SIGN_BIT;
            -(magnitude as i64)
        } else {
            bits as i64
        }
    }
}

/// No number precedes itself, and of two numbers at most one precedes the
/// other.
pub proof fn lemma_precedes_is_strict(a: Scalar, b: Scalar)
    ensures
        !a.precedes(a),
        a.precedes(b) ==> !b.precedes(a),
{
}

/// What precedes a number that precedes a third precedes the third.
pub proof fn lemma_precedes_is_transitive(a: Scalar, b: Scalar, c: Scalar)
    requires
        a.precedes(b),
        b.precedes(c),
    ensures
        a.precedes(c),
{
}

} // verus!
