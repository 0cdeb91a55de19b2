//! Rays: parametric lines with a time coordinate for motion blur.

use vstd::prelude::*;
use crate::fixed::{Fixed, OP_LIMIT, fits_raw};
use crate::vec3::{Point3, V3, Vec3, v3_in};

verus! {

/// The mathematical model of a ray.
pub ghost struct RayModel {
    pub origin: V3,
    pub direction: V3,
    pub time: int,
}

/// The point a ray reaches after parametric distance with raw value `t`.
pub open spec fn ray_at(r: RayModel, t: int) -> V3 {
    r.origin.vadd(r.direction.vscale(t))
}

/// A ray: origin, direction and the time at which it samples the scene.
/// Immutable once constructed.
#[derive(Clone, Copy, Debug, PartialEq, Eq, Structural)]
pub struct Ray {
    pub direction: Vec3,
    pub origin: Point3,
    pub time: Fixed,
}

impl View for Ray {
    type V = RayModel;

    open spec fn view(&self) -> RayModel {
        RayModel { origin: self.origin@, direction: self.direction@, time: self.time.raw as int }
    }
}

impl Ray {
    /// The ray with the given origin, direction and time.
    pub fn new(origin: Point3, direction: Vec3, time: Fixed) -> (r: Ray)
        ensures
            r@ == (RayModel {
                origin: origin@,
                direction: direction@,
                time: time.raw as int,
            }),
    {
        Ray { direction, origin, time }
    }

    /// The origin.
    pub fn origin(&self) -> (r: &Point3)
        ensures
            r@ == self@.origin,
    {
        &self.origin
    }

    /// The direction.
    pub fn direction(&self) -> (r: &Vec3)
        ensures
            r@ == self@.direction,
    {
        &self.direction
    }

    /// The time coordinate.
    pub fn time(&self) -> (r: Fixed)
        ensures
            r.raw == self@.time,
    {
        self.time
    }

    /// The point at parametric distance `t`: `origin + t * direction`.
    pub fn at(&self, t: Fixed) -> (r: Point3)
        requires
            -OP_LIMIT <= t.raw <= OP_LIMIT,
            v3_in(self@.direction, OP_LIMIT as int),
            fits_raw(self@.origin.x + self@.direction.vscale(t.raw as int).x),
            fits_raw(self@.origin.y + self@.direction.vscale(t.raw as int).y),
            fits_raw(self@.origin.z + self@.direction.vscale(t.raw as int).z),
        ensures
            r@ == ray_at(self@, t.raw as int),
    {
        self.origin.add(&self.direction.scale(t))
    }
}

} // verus!
