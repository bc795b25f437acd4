//! Rays: an initial point and a direction.

use vstd::prelude::*;
use crate::vec3::Vector3;
use crate::vec3::vadd_s;
use crate::vec3::vscale_s;

verus! {

/// A half-line through `origin` along `direction`. The direction need not
/// be normalized; parameters are in direction-length units.
#[derive(Clone, Copy, Debug, PartialEq, Eq, Structural)]
pub struct Ray {
    pub origin: Vector3,
    pub direction: Vector3,
}

/// The point reached after travelling `time` along the ray.
pub open spec fn point_at_s(ray: Ray, time: int) -> Vector3 {
    vadd_s(ray.origin, vscale_s(ray.direction, time))
}

impl Ray {
    /// The point reached after travelling `time` along the ray.
    pub fn point_at_parameter(self, time: i64) -> (r: Vector3)
        ensures
            r == point_at_s(self, time as int),
    {
        self.origin.plus(self.direction.scale(time))
    }
}

} // verus!
