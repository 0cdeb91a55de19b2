//! Spheres, possibly moving, and their exact intersection model.
//!
//! The intersection arithmetic runs on raw integers (scale `SCALE` squared
//! for the quadratic's coefficients) so that the discriminant and both roots
//! are computed exactly; the specification functions below mirror that
//! arithmetic step for step, and `hits` is proved to return exactly the
//! model's answer.  Two numeric guards depart from the idealized geometry,
//! so a root inside the interval is a hit only within them: a hit whose
//! point leaves the world box of 50,000 units in each coordinate, or whose
//! outward normal is not near unit length (above 4 units in a component, a
//! degenerate division), is rejected as no hit.

use vstd::prelude::*;
use crate::fixed::{
    Fixed, SCALE, floor_div, fdiv_raw, isqrt_spec, floor_div_exec, isqrt_exec,
    lemma_isqrt_unique, lemma_mul_magnitude, lemma_fmul_bound,
};
use crate::hittable::{face_spec, HitModel, HitRecord, Hittable};
use crate::material::{Material, MaterialKind};
use crate::ray::{Ray, RayModel, ray_at};
use crate::utils::{
    Interval, Span, DIR_LIMIT, NORMAL_LIMIT, SPAN_LIMIT, WORLD_LIMIT,
};
use crate::vec3::{Point3, V3, v3_in};
use vstd::arithmetic::div_mod::{
    lemma_div_is_ordered, lemma_div_multiples_vanish, lemma_div_pos_is_pos,
};

verus! {

/// Raw bound on an instantaneous center: a world coordinate plus a full
/// interpolation step.
pub const CENTER_LIMIT: i128 = 1_500_000_001;

/// The quadratic coefficient `a` at scale `SCALE` squared: the squared
/// length of the direction, without fixed-point rounding.
pub open spec fn q_a2(d: V3) -> int {
    d.x * d.x + d.y * d.y + d.z * d.z
}

/// The half-coefficient `h` at scale `SCALE` squared.
pub open spec fn q_h2(d: V3, oc: V3) -> int {
    d.x * oc.x + d.y * oc.y + d.z * oc.z
}

/// The constant coefficient `c` at scale `SCALE` squared.
pub open spec fn q_c2(oc: V3, radius: int) -> int {
    oc.x * oc.x + oc.y * oc.y + oc.z * oc.z - radius * radius
}

/// A sphere with a start and end center over a shutter window, a radius and
/// one attached material.
#[derive(Clone, Copy, Debug, PartialEq, Eq, Structural)]
pub struct Sphere {
    pub center_start: Point3,
    pub center_end: Point3,
    pub radius: Fixed,
    pub start_time: Fixed,
    pub end_time: Fixed,
    pub material: MaterialKind,
}

impl Sphere {
    /// Whether the sphere's sizes lie within the renderer's limits.
    pub open spec fn sphere_wf(self) -> bool {
        &&& v3_in(self.center_start@, WORLD_LIMIT as int)
        &&& v3_in(self.center_end@, WORLD_LIMIT as int)
        &&& 0 <= self.radius.raw <= WORLD_LIMIT
        &&& -SPAN_LIMIT <= self.start_time.raw <= SPAN_LIMIT
        &&& -SPAN_LIMIT <= self.end_time.raw <= SPAN_LIMIT
        &&& self.material.wf()
    }

    /// The instantaneous center at the given time: linear interpolation
    /// inside the shutter window, the start center outside it.
    pub open spec fn center_spec(self, time: int) -> V3 {
        if self.start_time.raw < self.end_time.raw && self.start_time.raw <= time
            <= self.end_time.raw {
            let tt = fdiv_raw(time - self.start_time.raw, self.end_time.raw - self.start_time.raw);
            self.center_start@.vadd(self.center_end@.vsub(self.center_start@).vscale(tt))
        } else {
            self.center_start@
        }
    }

    /// The accepted root of the intersection quadratic over the open range
    /// `(lo, hi)`: the smaller root if it lies inside, else the larger root
    /// if it does, else nothing.  A zero radius or direction never hits.
    pub open spec fn hit_t_spec(self, ray: RayModel, lo: int, hi: int) -> Option<int> {
        let oc = self.center_spec(ray.time).vsub(ray.origin);
        let a2 = q_a2(ray.direction);
        let h2 = q_h2(ray.direction, oc);
        let c2 = q_c2(oc, self.radius.raw as int);
        let disc = h2 * h2 - a2 * c2;
        if self.radius.raw == 0 || a2 == 0 || disc < 0 {
            None
        } else {
            let sq = isqrt_spec(disc as nat) as int;
            let r1 = floor_div((h2 - sq) * SCALE, a2);
            let r2 = floor_div((h2 + sq) * SCALE, a2);
            if lo < r1 < hi {
                Some(r1)
            } else if lo < r2 < hi {
                Some(r2)
            } else {
                None
            }
        }
    }

    /// The full intersection record over the open range `(lo, hi)`: the hit
    /// point, the oriented unit normal and the parametric distance; a hit
    /// whose point leaves the world box or whose normal is degenerate is
    /// rejected.
    pub open spec fn hit_model_spec(self, ray: RayModel, lo: int, hi: int) -> Option<HitModel> {
        match self.hit_t_spec(ray, lo, hi) {
            None => None,
            Some(t) => {
                let p = ray_at(ray, t);
                let outward = p.vsub(self.center_spec(ray.time)).vdivk(self.radius.raw as int);
                if !v3_in(p, WORLD_LIMIT as int) || !v3_in(outward, NORMAL_LIMIT as int) {
                    None
                } else {
                    Some(
                        face_spec(
                            HitModel {
                                p,
                                normal: outward,
                                t,
                                front_face: false,
                                mat: self.material,
                            },
                            ray,
                        ),
                    )
                }
            },
        }
    }

    /// A sphere over the given shutter window; the radius is clamped to be
    /// nonnegative.
    pub fn new(
        center_start: &Point3,
        center_end: &Point3,
        radius: Fixed,
        time0: Fixed,
        time1: Fixed,
        material: MaterialKind,
    ) -> (r: Sphere)
        requires
            v3_in(center_start@, WORLD_LIMIT as int),
            v3_in(center_end@, WORLD_LIMIT as int),
            radius.raw <= WORLD_LIMIT,
            -SPAN_LIMIT <= time0.raw <= SPAN_LIMIT,
            -SPAN_LIMIT <= time1.raw <= SPAN_LIMIT,
            material.wf(),
        ensures
            r.center_start == *center_start,
            r.center_end == *center_end,
            r.radius.raw == if radius.raw >= 0 {
                radius.raw as int
            } else {
                0
            },
            r.start_time == time0,
            r.end_time == time1,
            r.material == material,
            r.sphere_wf(),
    {
        Sphere {
            center_start: *center_start,
            center_end: *center_end,
            radius: radius.max(Fixed::zero()),
            start_time: time0,
            end_time: time1,
            material,
        }
    }

    /// The instantaneous center at `current_time`.
    fn center(&self, current_time: Fixed) -> (r: Point3)
        requires
            self.sphere_wf(),
            -SPAN_LIMIT <= current_time.raw <= SPAN_LIMIT,
        ensures
            r@ == self.center_spec(current_time.raw as int),
            v3_in(r@, CENTER_LIMIT as int),
    {
        let inside = self.start_time.raw < self.end_time.raw
            && self.start_time.raw <= current_time.raw
            && current_time.raw <= self.end_time.raw;
        if inside {
            let window = self.end_time.sub(self.start_time);
            let tt = current_time.sub(self.start_time).div(window);
            proof {
                let num = (current_time.raw - self.start_time.raw) * SCALE;
                let den = window.raw as int;
                assert(0 <= num) by (nonlinear_arith)
                    requires
                        current_time.raw >= self.start_time.raw,
                        num == (current_time.raw - self.start_time.raw) * SCALE,
                {}
                assert(num <= den * (SCALE as int)) by (nonlinear_arith)
                    requires
                        current_time.raw - self.start_time.raw <= den,
                        num == (current_time.raw - self.start_time.raw) * SCALE,
                        den > 0,
                {}
                lemma_div_pos_is_pos(num, den);
                lemma_div_is_ordered(num, den * (SCALE as int), den);
                lemma_div_multiples_vanish(SCALE as int, den);
                assert(0 <= tt.raw <= SCALE);
                let delta = self.center_end@.vsub(self.center_start@);
                lemma_fmul_bound(tt.raw as int, delta.x, SCALE as int, 1_000_000_000);
                lemma_fmul_bound(tt.raw as int, delta.y, SCALE as int, 1_000_000_000);
                lemma_fmul_bound(tt.raw as int, delta.z, SCALE as int, 1_000_000_000);
            }
            let c = self.center_end.sub(&self.center_start);
            self.center_start.add(&c.scale(tt))
        } else {
            self.center_start
        }
    }
}

/// The two roots of the intersection quadratic are ordered: the one built
/// from subtracting the square root never exceeds the one from adding it.
proof fn lemma_roots_ordered(h2: int, sq: int, a2: int)
    requires
        0 <= sq,
        0 < a2,
    ensures
        floor_div((h2 - sq) * SCALE, a2) <= floor_div((h2 + sq) * SCALE, a2),
{
    assert((h2 - sq) * SCALE <= (h2 + sq) * SCALE) by (nonlinear_arith)
        requires
            0 <= sq,
    {}
    lemma_div_is_ordered((h2 - sq) * SCALE, (h2 + sq) * SCALE, a2);
}

/// Narrowing the upper end of the query range keeps exactly the hits whose
/// parametric distance still lies inside it: the accepted root does not
/// change, it is only dropped once it falls outside.
pub proof fn lemma_sphere_hit_t_narrow(s: Sphere, ray: RayModel, lo: int, u1: int, u2: int)
    requires
        u2 <= u1,
    ensures
        s.hit_t_spec(ray, lo, u2) == match s.hit_t_spec(ray, lo, u1) {
            Some(t) => if t < u2 {
                Some(t)
            } else {
                None
            },
            None => None::<int>,
        },
{
    let oc = s.center_spec(ray.time).vsub(ray.origin);
    let a2 = q_a2(ray.direction);
    let h2 = q_h2(ray.direction, oc);
    let c2 = q_c2(oc, s.radius.raw as int);
    let disc = h2 * h2 - a2 * c2;
    if s.radius.raw == 0 || a2 == 0 || disc < 0 {
    } else {
        assert(a2 > 0) by (nonlinear_arith)
            requires
                a2 == q_a2(ray.direction),
                a2 != 0,
        {}
        let sq = isqrt_spec(disc as nat) as int;
        lemma_roots_ordered(h2, sq, a2);
    }
}

/// The record form of the narrowing law: the reported intersection record
/// is unchanged by tightening the upper bound, as long as its distance
/// still lies inside; otherwise it disappears.
pub proof fn lemma_sphere_hit_narrow(s: Sphere, ray: RayModel, lo: int, u1: int, u2: int)
    requires
        u2 <= u1,
    ensures
        s.hit_model_spec(ray, lo, u2) == match s.hit_t_spec(ray, lo, u1) {
            Some(t) => if t < u2 {
                s.hit_model_spec(ray, lo, u1)
            } else {
                None
            },
            None => None::<HitModel>,
        },
{
    lemma_sphere_hit_t_narrow(s, ray, lo, u1, u2);
}

/// A hit a sphere reports lies strictly inside the queried range, its point
/// and oriented normal lie within the world and normal limits, and it
/// carries the sphere's material.
pub proof fn lemma_sphere_hit_in_range(s: Sphere, ray: RayModel, lo: int, hi: int)
    ensures
        s.hit_model_spec(ray, lo, hi) matches Some(m) ==> {
            &&& lo < m.t < hi
            &&& v3_in(m.p, WORLD_LIMIT as int)
            &&& v3_in(m.normal, NORMAL_LIMIT as int)
            &&& m.mat == s.material
        },
{
}

impl Hittable for Sphere {
    open spec fn wf(&self) -> bool {
        self.sphere_wf()
    }

    open spec fn hit_model(&self, ray: RayModel, t0: int, t1: int) -> Option<HitModel> {
        self.hit_model_spec(ray, t0, t1)
    }

    fn hits<'a>(&'a self, ray: &Ray, ray_t: Span) -> (r: Option<HitRecord<'a>>) {
        if self.radius.raw == 0 {
            return None;
        }
        let c = self.center(ray.time());
        let ocx: i128 = c.x.raw - ray.origin.x.raw;
        let ocy: i128 = c.y.raw - ray.origin.y.raw;
        let ocz: i128 = c.z.raw - ray.origin.z.raw;
        let dx: i128 = ray.direction.x.raw;
        let dy: i128 = ray.direction.y.raw;
        let dz: i128 = ray.direction.z.raw;
        proof {
            lemma_mul_magnitude(dx as int, dx as int, DIR_LIMIT as int, DIR_LIMIT as int);
            lemma_mul_magnitude(dy as int, dy as int, DIR_LIMIT as int, DIR_LIMIT as int);
            lemma_mul_magnitude(dz as int, dz as int, DIR_LIMIT as int, DIR_LIMIT as int);
            lemma_mul_magnitude(dx as int, ocx as int, DIR_LIMIT as int, 2_000_000_001);
            lemma_mul_magnitude(dy as int, ocy as int, DIR_LIMIT as int, 2_000_000_001);
            lemma_mul_magnitude(dz as int, ocz as int, DIR_LIMIT as int, 2_000_000_001);
            lemma_mul_magnitude(ocx as int, ocx as int, 2_000_000_001, 2_000_000_001);
            lemma_mul_magnitude(ocy as int, ocy as int, 2_000_000_001, 2_000_000_001);
            lemma_mul_magnitude(ocz as int, ocz as int, 2_000_000_001, 2_000_000_001);
            lemma_mul_magnitude(
                self.radius.raw as int,
                self.radius.raw as int,
                WORLD_LIMIT as int,
                WORLD_LIMIT as int,
            );
        }
        proof {
            assert(dx * dx >= 0 && dy * dy >= 0 && dz * dz >= 0) by (nonlinear_arith) {}
        }
        let a2: i128 = dx * dx + dy * dy + dz * dz;
        let h2: i128 = dx * ocx + dy * ocy + dz * ocz;
        let c2: i128 = ocx * ocx + ocy * ocy + ocz * ocz - self.radius.raw * self.radius.raw;
        if a2 == 0 {
            return None;
        }
        proof {
            lemma_mul_magnitude(h2 as int, h2 as int, 6_100_000_000_000_000_000, 6_100_000_000_000_000_000);
            lemma_mul_magnitude(a2 as int, c2 as int, 3_000_000_000_000_000_000, 12_350_000_000_000_000_000);
        }
        let disc: i128 = h2 * h2 - a2 * c2;
        if disc < 0 {
            return None;
        }
        let sq_u: u128 = isqrt_exec(disc as u128);
        proof {
            lemma_isqrt_unique((disc as u128) as nat, sq_u as nat);
        }
        let sq: i128 = sq_u as i128;
        let r1: i128 = floor_div_exec((h2 - sq) * SCALE, a2);
        let r2: i128 = floor_div_exec((h2 + sq) * SCALE, a2);
        let root = if ray_t.surrounds(Fixed::from_raw(r1)) {
            r1
        } else if ray_t.surrounds(Fixed::from_raw(r2)) {
            r2
        } else {
            return None;
        };
        let t = Fixed::from_raw(root);
        proof {
            lemma_fmul_bound(root as int, ray@.direction.x, SPAN_LIMIT as int, DIR_LIMIT as int);
            lemma_fmul_bound(root as int, ray@.direction.y, SPAN_LIMIT as int, DIR_LIMIT as int);
            lemma_fmul_bound(root as int, ray@.direction.z, SPAN_LIMIT as int, DIR_LIMIT as int);
        }
        let p = ray.at(t);
        if !(p.x.raw >= -WORLD_LIMIT && p.x.raw <= WORLD_LIMIT && p.y.raw >= -WORLD_LIMIT
            && p.y.raw <= WORLD_LIMIT && p.z.raw >= -WORLD_LIMIT && p.z.raw <= WORLD_LIMIT) {
            return None;
        }
        let outward_normal = p.sub(&c).div_scalar(self.radius);
        if !(outward_normal.x.raw >= -NORMAL_LIMIT && outward_normal.x.raw <= NORMAL_LIMIT
            && outward_normal.y.raw >= -NORMAL_LIMIT && outward_normal.y.raw <= NORMAL_LIMIT
            && outward_normal.z.raw >= -NORMAL_LIMIT && outward_normal.z.raw <= NORMAL_LIMIT) {
            return None;
        }
        let mut rec = HitRecord::new(p, outward_normal, t, &self.material);
        rec.make_normal_face_ray(ray);
        Some(rec)
    }
}

} // verus!

