use vstd::prelude::*;

use crate::fixed::Fixed;
use crate::vec3::{Point3, Vec3};

verus! {

/// A half-line `origin + direction * t`; the direction need not be a unit.
#[derive(Clone, Copy, Debug)]
pub struct Ray {
    pub origin: Point3<Fixed>,
    pub direction: Vec3<Fixed>,
}

impl Ray {
    pub fn new(origin: Point3<Fixed>, direction: Vec3<Fixed>) -> (r: Ray)
        ensures
            r.origin == origin,
            r.direction == direction,
    {
        Ray { origin, direction }
    }

    pub open spec fn point_at_time_spec(&self, t: Fixed) -> Point3<Fixed> {
        self.origin.add_spec(self.direction.scale_spec(t))
    }

    /// The point `origin + direction * t`.
    #[verifier::when_used_as_spec(point_at_time_spec)]
    pub fn point_at_time(&self, t: Fixed) -> (r: Point3<Fixed>)
        ensures
            r == self.point_at_time_spec(t),
    {
        self.origin.add(self.direction.scale(t))
    }
}

} // verus!
