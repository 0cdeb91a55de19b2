//! Hit records and the interface of geometry that rays can strike.

use vstd::prelude::*;
use crate::fixed::{Fixed, OP_LIMIT};
use crate::material::MaterialKind;
use crate::ray::{Ray, RayModel};
use crate::utils::{Span, DIR_LIMIT, NORMAL_LIMIT, SPAN_LIMIT, WORLD_LIMIT, span_in_limits};
use crate::vec3::{Point3, V3, Vec3, v3_in};

verus! {

/// The mathematical model of an intersection.
pub ghost struct HitModel {
    pub p: V3,
    pub normal: V3,
    pub t: int,
    pub front_face: bool,
    pub mat: MaterialKind,
}

/// The orientation step: the normal is flipped to oppose the incoming ray,
/// and `front_face` records whether it already did.
pub open spec fn face_spec(rec: HitModel, ray: RayModel) -> HitModel {
    if ray.direction.vdot(rec.normal) < 0 {
        HitModel { front_face: true, ..rec }
    } else {
        HitModel { front_face: false, normal: rec.normal.vneg(), ..rec }
    }
}

/// The size conditions under which scattering arithmetic stays in range:
/// a ray within the renderer's limits and a hit record produced by traversal.
pub open spec fn hit_inputs_ok(ray: RayModel, rec: HitModel) -> bool {
    &&& v3_in(ray.direction, DIR_LIMIT as int)
    &&& v3_in(ray.origin, WORLD_LIMIT as int)
    &&& -SPAN_LIMIT <= ray.time <= SPAN_LIMIT
    &&& v3_in(rec.normal, NORMAL_LIMIT as int)
    &&& v3_in(rec.p, WORLD_LIMIT as int)
}

/// The transient result of an intersection; consumed within one traversal
/// step.  The normal is oriented against the incoming ray once
/// `make_normal_face_ray` has run.
pub struct HitRecord<'a> {
    pub p: Point3,
    pub normal: Vec3,
    pub t: Fixed,
    pub front_face: bool,
    pub material: &'a MaterialKind,
}

impl<'a> View for HitRecord<'a> {
    type V = HitModel;

    open spec fn view(&self) -> HitModel {
        HitModel {
            p: self.p@,
            normal: self.normal@,
            t: self.t.raw as int,
            front_face: self.front_face,
            mat: *self.material,
        }
    }
}

impl<'a> HitRecord<'a> {
    /// A record of a hit at `p` with outward normal `normal` at parametric
    /// distance `t`; the orientation step has not run yet.
    pub fn new(p: Point3, normal: Vec3, t: Fixed, material: &'a MaterialKind) -> (r: HitRecord<'a>)
        ensures
            r@ == (HitModel {
                p: p@,
                normal: normal@,
                t: t.raw as int,
                front_face: false,
                mat: *material,
            }),
    {
        HitRecord { p, normal, t, material, front_face: false }
    }

    /// Orients the normal against the incoming ray, recording in
    /// `front_face` whether the ray approached from the geometric outside.
    pub fn make_normal_face_ray(&mut self, ray: &Ray)
        requires
            v3_in(old(self)@.normal, OP_LIMIT as int),
            v3_in(ray@.direction, OP_LIMIT as int),
        ensures
            final(self)@ == face_spec(old(self)@, ray@),
    {
        let d = ray.direction().dot(&self.normal);
        let they_already_face_each_other = d.raw < 0;
        if they_already_face_each_other {
            self.front_face = true;
        } else {
            self.front_face = false;
            self.normal = self.normal.neg();
        }
    }
}

/// Geometry that a ray can strike: its intersection behaviour is pinned by
/// the `hit_model` specification of each implementation.
pub trait Hittable {
    /// Whether this geometry's stored sizes lie within the renderer's limits.
    spec fn wf(&self) -> bool;

    /// The intersection this geometry reports for a ray over the open
    /// parametric range `(t0, t1)`, or `None` when the ray misses.
    spec fn hit_model(&self, ray: RayModel, t0: int, t1: int) -> Option<HitModel>;

    /// Tests the ray against this geometry over the open range `ray_t`.
    fn hits<'a>(&'a self, ray: &Ray, ray_t: Span) -> (r: Option<HitRecord<'a>>)
        requires
            self.wf(),
            v3_in(ray@.direction, DIR_LIMIT as int),
            v3_in(ray@.origin, WORLD_LIMIT as int),
            -SPAN_LIMIT <= ray@.time <= SPAN_LIMIT,
            span_in_limits(ray_t),
        ensures
            match r {
                Some(rec) => self.hit_model(ray@, ray_t.min.raw as int, ray_t.max.raw as int)
                    == Some(rec@),
                None => self.hit_model(ray@, ray_t.min.raw as int, ray_t.max.raw as int)
                    is None,
            },
    ;
}

} // verus!
