//! Rays: a half-line from an origin along a direction.
use vstd::prelude::*;
use crate::vec3::Vec3;

verus! {

/// The points `origin + t * direction`.
#[derive(Clone, Copy, Debug, PartialEq, Eq, Structural)]
pub struct Ray {
    pub origin: Vec3,
    pub direction: Vec3,
}

impl Ray {
    /// The ray from `origin` along `direction`.
    pub fn new(origin: Vec3, direction: Vec3) -> (r: Ray)
        ensures
            r == (Ray { origin, direction }),
    {
        Ray { origin, direction }
    }

    /// The ray that starts at the origin and leads nowhere: the value that a
    /// scattered ray has before a material fills it in.
    pub fn empty() -> (r: Ray)
        ensures
            r == (Ray { origin: Vec3::origin(), direction: Vec3::origin() }),
    {
        Ray::new(Vec3::zero(), Vec3::zero())
    }
}

} // verus!
