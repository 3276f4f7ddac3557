use vstd::prelude::*;
use crate::geometry::vector::{Vec3, v3_add, v3_scale};

verus! {

/// A ray: origin, direction (not necessarily unit length), and the shutter
/// time at which it samples the scene.
#[derive(Clone, Copy, PartialEq, Eq, Structural, Debug)]
pub struct Ray {
    pub o: Vec3,
    pub d: Vec3,
    pub time: i64,
}

pub open spec fn point_at_spec(r: Ray, t: int) -> Vec3 {
    v3_add(r.o, v3_scale(r.d, t))
}

impl Ray {
    pub fn new(origin: Vec3, direction: Vec3, time: i64) -> (r: Self)
        ensures
            r == (Ray { o: origin, d: direction, time }),
    {
        Self { o: origin, d: direction, time }
    }

    /// The point `origin + t * direction`.
    pub fn point_at_parameter(&self, t: i64) -> (r: Vec3)
        ensures
            r == point_at_spec(*self, t as int),
    {
        self.o.add(self.d.scale(t))
    }
}

} // verus!
