use vstd::prelude::*;
use crate::scalar::Scalar;
use crate::scalar::ZERO_BITS;

verus! {

/// Three scalars: a position, a velocity or a displacement.
///
/// `==` compares bit for bit, as it does on `Scalar`.
#[derive(Clone, Copy, Debug, PartialEq, Eq, Structural)]
pub struct Vec3 {
    pub x: Scalar,
    pub y: Scalar,
    pub z: Scalar,
}

impl Vec3 {
    /// The vector of three positive zeros.
    pub open spec fn zero() -> Vec3 {
        Vec3 { x: Scalar::zero(), y: Scalar::zero(), z: Scalar::zero() }
    }

    /// `self` with its second component replaced.
    pub open spec fn spec_with_y(self, y: Scalar) -> Vec3 {
        Vec3 { x: self.x, y, z: self.z }
    }

    /// The vector of the three components.
    pub fn new(x: Scalar, y: Scalar, z: Scalar) -> (v: Vec3)
        ensures
            v == (Vec3 { x, y, z }),
    {
        Vec3 { x, y, z }
    }

    /// The vector of three positive zeros.
    pub fn zeros() -> (v: Vec3)
        ensures
            v == Vec3::zero(),
    {
        let z = Scalar { bits: ZERO_BITS };
        Vec3 { x: z, y: z, z }
    }

    /// `self` with its second component replaced.
    #[verifier::when_used_as_spec(spec_with_y)]
    pub fn with_y(self, y: Scalar) -> (v: Vec3)
        ensures
            v == self.spec_with_y(y),
    {
        Vec3 { x: self.x, y, z: self.z }
    }
}

} // verus!
