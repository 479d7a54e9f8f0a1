//! Three scalars: a point, a direction or a colour.
use vstd::prelude::*;
use crate::scalar::Scalar;

verus! {

/// A vector of three double-precision components.
#[derive(Clone, Copy, Debug, PartialEq, Eq, Structural)]
pub struct Vec3 {
    pub x: Scalar,
    pub y: Scalar,
    pub z: Scalar,
}

impl Vec3 {
    /// The vector with each component negated.
    pub open spec fn negated(self) -> Vec3 {
        Vec3 { x: self.x.negated(), y: self.y.negated(), z: self.z.negated() }
    }

    /// Whether every component lies in `[0, 1]`, as the channels of a colour do.
    pub open spec fn unit_color(self) -> bool {
        &&& Scalar::zero().at_most(self.x) && self.x.at_most(Scalar::one())
        &&& Scalar::zero().at_most(self.y) && self.y.at_most(Scalar::one())
        &&& Scalar::zero().at_most(self.z) && self.z.at_most(Scalar::one())
    }

    /// The vector whose components are all `0.0`.
    pub open spec fn origin() -> Vec3 {
        Vec3 { x: Scalar { bits: 0 }, y: Scalar { bits: 0 }, z: Scalar { bits: 0 } }
    }

    /// The vector with the given components.
    pub fn new(x: Scalar, y: Scalar, z: Scalar) -> (v: Vec3)
        ensures
            v == (Vec3 { x, y, z }),
    {
        Vec3 { x, y, z }
    }

    /// The vector whose components have the given bit patterns.
    pub fn from_bits(x: u64, y: u64, z: u64) -> (v: Vec3)
        ensures
            v.x.bits == x,
            v.y.bits == y,
            v.z.bits == z,
    {
        Vec3 { x: Scalar::from_bits(x), y: Scalar::from_bits(y), z: Scalar::from_bits(z) }
    }

    /// The vector whose components are all `0.0`.
    pub fn zero() -> (v: Vec3)
        ensures
            v == Vec3::origin(),
    {
        Vec3 { x: Scalar::zero(), y: Scalar::zero(), z: Scalar::zero() }
    }

    /// Whether every component lies in `[0, 1]`.
    pub fn is_unit_color(&self) -> (r: bool)
        ensures
            r == self.unit_color(),
    {
        let zero = Scalar::zero();
        let one = Scalar::one();
        zero.le(&self.x) && self.x.le(&one) && zero.le(&self.y) && self.y.le(&one) && zero.le(&self.z)
            && self.z.le(&one)
    }

    /// `-self`, component by component.
    pub fn neg(&self) -> (v: Vec3)
        ensures
            v == self.negated(),
    {
        Vec3 { x: self.x.neg(), y: self.y.neg(), z: self.z.neg() }
    }
}

} // verus!
