//! Which solve of the ray/triangle system is a hit.
//!
//! Möller–Trumbore solves `origin + t * direction = v0 + u * e1 + v * e2`
//! for `t`, `u` and `v`, by way of the determinant `det = e1 . (direction x
//! e2)`. The caller computes the five scalars; whether they make a hit is
//! decided here, on their bits.
use vstd::prelude::*;
use crate::scalar::{epsilon, one, zero, Scalar, EPSILON_BITS, ONE_BITS, ZERO_BITS};

verus! {

/// What solving the system for one ray and one triangle gave.
#[derive(Clone, Copy, Debug, PartialEq, Eq, Structural)]
pub struct Solution {
    /// The determinant: positive where the ray meets the front face.
    pub det: Scalar,
    /// The weight of the second vertex.
    pub u: Scalar,
    /// The weight of the third vertex.
    pub v: Scalar,
    /// The sum `u + v`, as the caller's arithmetic rounded it.
    pub uv: Scalar,
    /// The ray parameter of the point in the triangle's plane.
    pub t: Scalar,
}

impl Solution {
    /// The ray meets the front face, not at a grazing angle.
    pub open spec fn faces(self) -> bool {
        !self.det.precedes(epsilon())
    }

    /// The point lies in the triangle: `0 <= u <= 1`, `0 <= v`, `u + v <= 1`.
    pub open spec fn inside(self) -> bool {
        &&& !self.u.precedes(zero())
        &&& !one().precedes(self.u)
        &&& !self.v.precedes(zero())
        &&& !one().precedes(self.uv)
    }

    /// The point lies ahead of the origin, by the tolerance at least.
    pub open spec fn ahead(self) -> bool {
        !self.t.precedes(epsilon())
    }

    /// The distance of the hit, or `None` where the solve is no hit.
    pub open spec fn hit(self) -> Option<Scalar> {
        if self.faces() && self.inside() && self.ahead() {
            Some(self.t)
        } else {
            None
        }
    }

    /// Decides whether the solve is a hit, and gives its distance if so.
    ///
    /// Back faces and grazing rays are culled, points outside the triangle
    /// are rejected, and so is every point behind the origin or nearer to it
    /// than the tolerance: a distance that comes back is no number below
    /// `1e-5`, so none that is negative.
    pub fn intersect(&self) -> (hit: Option<Scalar>)
        ensures
            hit == self.hit(),
            self.det.precedes(epsilon()) ==> hit is None,
            self.t.precedes(epsilon()) ==> hit is None,
            hit matches Some(t) ==> t == self.t && (t.is_nan() || (!t.negative() && t.bits
                >= EPSILON_BITS)),
    {
        let tolerance = Scalar::from_bits(EPSILON_BITS);
        let zero = Scalar::from_bits(ZERO_BITS);
        let one = Scalar::from_bits(ONE_BITS);
        if self.det.lt(tolerance) {
            return None;
        }
        if self.u.lt(zero) || one.lt(self.u) {
            return None;
        }
        if self.v.lt(zero) || one.lt(self.uv) {
            return None;
        }
        if self.t.lt(tolerance) {
            return None;
        }
        Some(self.t)
    }
}

/// Whether a triangle is left out of the scene. `box_area` is the surface
/// area of its bounding box and `area` the length of the cross product of
/// two of its edges, twice its own area. It is left out unless both are
/// numbers above zero: a triangle with its vertices in one line has no area,
/// whatever its box.
pub fn degenerate(box_area: Scalar, area: Scalar) -> (r: bool)
    ensures
        r == !(zero().precedes(box_area) && zero().precedes(area)),
{
    let zero = Scalar::from_bits(ZERO_BITS);
    !(zero.lt(box_area) && zero.lt(area))
}

} // verus!
