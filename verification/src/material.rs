//! Surface materials and their light-scattering models.
//!
//! Each material answers a `scatter` query with an attenuation color and a
//! scattered ray, or with nothing when the path is absorbed, and an `emit`
//! query with its self-emitted radiance.  The `Material` trait pins each
//! implementation's behaviour through its `scatter_ens` and `emit_ens`
//! specification functions; where a random draw takes part, the
//! specification states what holds of every outcome.

use vstd::prelude::*;
use crate::color::Color;
use crate::fixed::{
    Fixed, SCALE, OP_LIMIT, fmul_raw, fdiv_raw, fsqrt_raw, isqrt_spec, min_raw, max_raw,
    lemma_fmul_bound, lemma_fmul_self_nonneg, lemma_fmul_unit_upper, lemma_fmul_nonneg,
};
use crate::hittable::{HitModel, HitRecord, hit_inputs_ok};
use crate::ray::{Ray, RayModel};
use crate::rng::rng_range;
use crate::utils::clamp_raw;
use crate::vec3::{UNIT_LIMIT, V3, Vec3, v3_in};

verus! {

/// A color with every component in `[0, 1]`.
pub open spec fn color_unit(c: V3) -> bool {
    &&& 0 <= c.x <= SCALE
    &&& 0 <= c.y <= SCALE
    &&& 0 <= c.z <= SCALE
}

/// The color white: full transmission.
pub open spec fn white() -> V3 {
    V3 { x: SCALE as int, y: SCALE as int, z: SCALE as int }
}

/// A diffuse scatter direction around the normal `n`: the normal plus a
/// near-unit random vector, or the normal itself exactly when that sum was
/// near zero — so the direction handed back is never a degenerate one
/// unless the normal itself is.
pub open spec fn diffuse_dir_ok(n: V3, d: V3) -> bool {
    ||| d == n
    ||| (!d.vnear_zero() && v3_in(d.vsub(n), UNIT_LIMIT as int))
}

/// The fifth power under fixed-point rounding.
pub open spec fn pow5_raw(a: int) -> int {
    fmul_raw(fmul_raw(fmul_raw(fmul_raw(a, a), a), a), a)
}

/// A surface's light interaction.  `scatter_ens` and `emit_ens` are the
/// implementation-specific meanings the executable methods are held to.
pub trait Material {
    /// The material's parameters lie in their documented ranges.
    spec fn wf(&self) -> bool;

    /// What `scatter` may return for the given ray and hit.
    spec fn scatter_ens(&self, ray_in: RayModel, rec: HitModel, r: Option<(Color, Ray)>) -> bool;

    /// What `emit` returns for the given ray and hit.
    spec fn emit_ens(&self, ray_in: RayModel, rec: HitModel, r: Color) -> bool;

    /// Proposes an attenuation and a scattered ray, or absorbs the path.
    fn scatter(&self, rng: &mut rand::rngs::StdRng, ray_in: &Ray, rec: &HitRecord) -> (r: Option<
        (Color, Ray),
    >)
        requires
            self.wf(),
            hit_inputs_ok(ray_in@, rec@),
        ensures
            self.scatter_ens(ray_in@, rec@, r),
    ;

    /// The surface's self-emitted radiance.
    fn emit(&self, ray_in: &Ray, rec: &HitRecord) -> (r: Color)
        requires
            self.wf(),
        ensures
            self.emit_ens(ray_in@, rec@, r),
    ;
}

/// A diffuse surface: scatters around the normal, attenuating by its albedo.
#[derive(Clone, Copy, Debug, PartialEq, Eq, Structural)]
pub struct LambertianMaterial {
    pub albedo: Color,
}

impl LambertianMaterial {
    /// A diffuse material with the given albedo, a color in `[0, 1]`.
    pub fn new(albedo: &Color) -> (r: LambertianMaterial)
        requires
            color_unit(albedo@),
        ensures
            r.albedo == *albedo,
            r.wf(),
    {
        LambertianMaterial { albedo: *albedo }
    }
}

impl Material for LambertianMaterial {
    open spec fn wf(&self) -> bool {
        color_unit(self.albedo@)
    }

    open spec fn scatter_ens(&self, ray_in: RayModel, rec: HitModel, r: Option<(Color, Ray)>)
        -> bool {
        match r {
            Some((att, sc)) => {
                &&& att == self.albedo
                &&& sc@.origin == rec.p
                &&& sc@.time == ray_in.time
                &&& diffuse_dir_ok(rec.normal, sc@.direction)
            },
            None => false,
        }
    }

    open spec fn emit_ens(&self, ray_in: RayModel, rec: HitModel, r: Color) -> bool {
        r@ == V3::zero()
    }

    fn scatter(&self, rng: &mut rand::rngs::StdRng, ray_in: &Ray, rec: &HitRecord) -> (r: Option<
        (Color, Ray),
    >) {
        let u = Vec3::random_unit_vector(rng);
        let mut scatter_direction = rec.normal.add(&u);
        if scatter_direction.is_near_zero() {
            scatter_direction = rec.normal;
        }
        let scattered = Ray::new(rec.p, scatter_direction, ray_in.time());
        let attenuation = self.albedo;
        Some((attenuation, scattered))
    }

    fn emit(&self, ray_in: &Ray, rec: &HitRecord) -> (r: Color) {
        Vec3::new()
    }
}

/// A reflective surface: mirrors the incoming ray, roughened by `fuzz`.
#[derive(Clone, Copy, Debug, PartialEq, Eq, Structural)]
pub struct Metal {
    pub albedo: Color,
    pub fuzz: Fixed,
}

impl Metal {
    /// A metal with the given albedo; `fuzz` is clamped into `[0, 1]`.
    pub fn new(albedo: &Color, fuzz: Fixed) -> (r: Metal)
        requires
            color_unit(albedo@),
        ensures
            r.albedo == *albedo,
            r.fuzz.raw == clamp_raw(fuzz.raw as int, 0, SCALE as int),
            r.wf(),
    {
        Metal { albedo: *albedo, fuzz: fuzz.max(Fixed::zero()).min(Fixed::one()) }
    }
}

impl Material for Metal {
    open spec fn wf(&self) -> bool {
        &&& color_unit(self.albedo@)
        &&& 0 <= self.fuzz.raw <= SCALE
    }

    open spec fn scatter_ens(&self, ray_in: RayModel, rec: HitModel, r: Option<(Color, Ray)>)
        -> bool {
        match r {
            Some((att, sc)) => {
                let mirror = ray_in.direction.vreflect(rec.normal).vunit();
                let jitter = (self.fuzz.raw * (UNIT_LIMIT as int)) / (SCALE as int) + 1;
                &&& att == self.albedo
                &&& sc@.origin == rec.p
                &&& sc@.time == ray_in.time
                &&& v3_in(sc@.direction.vsub(mirror), jitter)
                &&& (self.fuzz.raw == 0 ==> sc@.direction == mirror)
            },
            None => false,
        }
    }

    open spec fn emit_ens(&self, ray_in: RayModel, rec: HitModel, r: Color) -> bool {
        r@ == V3::zero()
    }

    fn scatter(&self, rng: &mut rand::rngs::StdRng, ray_in: &Ray, rec: &HitRecord) -> (r: Option<
        (Color, Ray),
    >) {
        proof {
            lemma_fmul_bound(ray_in@.direction.x, rec@.normal.x, 1_000_000_000, 40_000);
            lemma_fmul_bound(ray_in@.direction.y, rec@.normal.y, 1_000_000_000, 40_000);
            lemma_fmul_bound(ray_in@.direction.z, rec@.normal.z, 1_000_000_000, 40_000);
        }
        let reflected = ray_in.direction().reflect(&rec.normal);
        proof {
            let d2 = 2 * ray_in@.direction.vdot(rec@.normal);
            lemma_fmul_bound(d2, rec@.normal.x, 25_000_000_000, 40_000);
            lemma_fmul_bound(d2, rec@.normal.y, 25_000_000_000, 40_000);
            lemma_fmul_bound(d2, rec@.normal.z, 25_000_000_000, 40_000);
        }
        let mirror = reflected.unit_vector();
        let u = Vec3::random_unit_vector(rng);
        let fuzzed = u.scale(self.fuzz);
        proof {
            lemma_fmul_bound(self.fuzz.raw as int, u@.x, SCALE as int, UNIT_LIMIT as int);
            lemma_fmul_bound(self.fuzz.raw as int, u@.y, SCALE as int, UNIT_LIMIT as int);
            lemma_fmul_bound(self.fuzz.raw as int, u@.z, SCALE as int, UNIT_LIMIT as int);
            lemma_fmul_bound(self.fuzz.raw as int, u@.x, self.fuzz.raw as int, UNIT_LIMIT as int);
            lemma_fmul_bound(self.fuzz.raw as int, u@.y, self.fuzz.raw as int, UNIT_LIMIT as int);
            lemma_fmul_bound(self.fuzz.raw as int, u@.z, self.fuzz.raw as int, UNIT_LIMIT as int);
            if self.fuzz.raw == 0 {
                assert(fuzzed@.x == 0) by {
                    assert(0 * u@.x == 0) by (nonlinear_arith) {}
                    assert(fmul_raw(0, u@.x) == 0);
                }
                assert(fuzzed@.y == 0) by {
                    assert(0 * u@.y == 0) by (nonlinear_arith) {}
                    assert(fmul_raw(0, u@.y) == 0);
                }
                assert(fuzzed@.z == 0) by {
                    assert(0 * u@.z == 0) by (nonlinear_arith) {}
                    assert(fmul_raw(0, u@.z) == 0);
                }
            }
        }
        let direction = mirror.add(&fuzzed);
        let scattered = Ray::new(rec.p, direction, ray_in.time());
        let attenuation = self.albedo;
        Some((attenuation, scattered))
    }

    fn emit(&self, ray_in: &Ray, rec: &HitRecord) -> (r: Color) {
        Vec3::new()
    }
}

/// The refractive index ratio a dielectric applies for a hit: the inverse
/// index when the ray enters from outside, the index itself otherwise.
pub open spec fn dielectric_ratio(index: int, front_face: bool) -> int {
    if front_face {
        fdiv_raw(SCALE as int, index)
    } else {
        index
    }
}

/// The cosine a dielectric computes at a hit: the dot product of the
/// reversed unit direction with the normal, clamped into `[-1, 1]`.
pub open spec fn dielectric_cos(u: V3, n: V3) -> int {
    max_raw(min_raw(u.vneg().vdot(n), SCALE as int), -(SCALE as int))
}

/// Whether total internal reflection forces the dielectric to reflect:
/// the ratio times the sine exceeds one.
pub open spec fn dielectric_cannot_refract(u: V3, n: V3, ri: int) -> bool {
    let c = dielectric_cos(u, n);
    let sin = fsqrt_raw((SCALE as int) - fmul_raw(c, c));
    fmul_raw(ri, sin) > SCALE
}

/// The Schlick reflectance approximation under fixed-point rounding.
pub open spec fn reflectance_spec(cos: int, idx: int) -> int {
    let t = fdiv_raw((SCALE as int) - idx, (SCALE as int) + idx);
    let r0 = fmul_raw(t, t);
    r0 + fmul_raw((SCALE as int) - r0, pow5_raw((SCALE as int) - cos))
}

/// A clear refractive surface choosing between reflection and refraction.
#[derive(Clone, Copy, Debug, PartialEq, Eq, Structural)]
pub struct Dielectric {
    pub refraction_index: Fixed,
}

impl Dielectric {
    /// A dielectric with the given refractive index, between 0.1 and 10.
    pub fn new(refraction_index: Fixed) -> (r: Dielectric)
        requires
            1_000 <= refraction_index.raw <= 100_000,
        ensures
            r.refraction_index == refraction_index,
            r.wf(),
    {
        Dielectric { refraction_index }
    }

    /// The Schlick reflectance for the given cosine and index ratio.
    pub fn reflectance(cosine: Fixed, refraction_index: Fixed) -> (r: Fixed)
        requires
            -(SCALE as int) <= cosine.raw <= SCALE,
            0 < refraction_index.raw <= 1_000_000,
        ensures
            r.raw == reflectance_spec(cosine.raw as int, refraction_index.raw as int),
    {
        proof {
            crate::fixed::lemma_fdiv_bound(
                (SCALE - refraction_index.raw) as int,
                (SCALE + refraction_index.raw) as int,
                1_000_000,
            );
        }
        let t = Fixed::from_raw(SCALE - refraction_index.raw).div(
            Fixed::from_raw(SCALE + refraction_index.raw),
        );
        proof {
            lemma_fmul_bound(t.raw as int, t.raw as int, 10_000_000_001, 10_000_000_001);
        }
        let r0 = t.mul(t);
        let base = Fixed::one().sub(cosine);
        proof {
            lemma_fmul_bound(base.raw as int, base.raw as int, 20_000, 20_000);
            lemma_fmul_bound(fmul_raw(base.raw as int, base.raw as int), base.raw as int, 40_001, 20_000);
            lemma_fmul_bound(
                fmul_raw(fmul_raw(base.raw as int, base.raw as int), base.raw as int),
                base.raw as int,
                80_003,
                20_000,
            );
            lemma_fmul_bound(
                fmul_raw(
                    fmul_raw(fmul_raw(base.raw as int, base.raw as int), base.raw as int),
                    base.raw as int,
                ),
                base.raw as int,
                160_007,
                20_000,
            );
        }
        let p2 = base.mul(base);
        let p3 = p2.mul(base);
        let p4 = p3.mul(base);
        let p5 = p4.mul(base);
        proof {
            lemma_fmul_bound(
                (SCALE - r0.raw) as int,
                p5.raw as int,
                10_000_000_003_000_000,
                320_015,
            );
        }
        r0.add(Fixed::from_raw(SCALE - r0.raw).mul(p5))
    }
}

impl Material for Dielectric {
    open spec fn wf(&self) -> bool {
        1_000 <= self.refraction_index.raw <= 100_000
    }

    open spec fn scatter_ens(&self, ray_in: RayModel, rec: HitModel, r: Option<(Color, Ray)>)
        -> bool {
        match r {
            Some((att, sc)) => {
                let u = ray_in.direction.vunit();
                let ri = dielectric_ratio(self.refraction_index.raw as int, rec.front_face);
                &&& att@ == white()
                &&& sc@.origin == rec.p
                &&& sc@.time == ray_in.time
                &&& (dielectric_cannot_refract(u, rec.normal, ri) ==> sc@.direction
                    == u.vreflect(rec.normal))
                &&& (sc@.direction == u.vreflect(rec.normal) || sc@.direction == u.vrefract(
                    rec.normal,
                    ri,
                ))
            },
            None => false,
        }
    }

    open spec fn emit_ens(&self, ray_in: RayModel, rec: HitModel, r: Color) -> bool {
        r@ == V3::zero()
    }

    fn scatter(&self, rng: &mut rand::rngs::StdRng, ray_in: &Ray, rec: &HitRecord) -> (r: Option<
        (Color, Ray),
    >) {
        let ri = if rec.front_face {
            proof {
                vstd::arithmetic::div_mod::lemma_div_is_ordered_by_denominator(
                    (SCALE * SCALE) as int,
                    1_000,
                    self.refraction_index.raw as int,
                );
                vstd::arithmetic::div_mod::lemma_div_pos_is_pos(
                    (SCALE * SCALE) as int,
                    self.refraction_index.raw as int,
                );
                vstd::arithmetic::div_mod::lemma_div_non_zero(
                    (SCALE * SCALE) as int,
                    self.refraction_index.raw as int,
                );
            }
            Fixed::one().div(self.refraction_index)
        } else {
            self.refraction_index
        };
        let unit_direction = ray_in.direction().unit_vector();
        proof {
            lemma_fmul_bound(-unit_direction@.x, rec@.normal.x, UNIT_LIMIT as int, 40_000);
            lemma_fmul_bound(-unit_direction@.y, rec@.normal.y, UNIT_LIMIT as int, 40_000);
            lemma_fmul_bound(-unit_direction@.z, rec@.normal.z, UNIT_LIMIT as int, 40_000);
        }
        let cos_theta = unit_direction.neg().dot(&rec.normal).min(Fixed::one()).max(
            Fixed::one().neg(),
        );
        proof {
            lemma_fmul_bound(cos_theta.raw as int, cos_theta.raw as int, SCALE as int, SCALE as int);
            lemma_fmul_self_nonneg(cos_theta.raw as int);
        }
        let sin_theta = Fixed::one().sub(cos_theta.mul(cos_theta)).sqrt();
        proof {
            assert(sin_theta.raw <= 200_000) by (nonlinear_arith)
                requires
                    0 <= sin_theta.raw,
                    sin_theta.raw * sin_theta.raw <= 400_000_000,
            {}
            lemma_fmul_bound(ri.raw as int, sin_theta.raw as int, 100_000, 200_000);
        }
        let cannot_refract = ri.mul(sin_theta).raw > SCALE;

        let random_number = rng_range(rng, 0, SCALE as i64);
        let reflectance = Dielectric::reflectance(cos_theta, ri);
        let direction = if cannot_refract || reflectance.raw > random_number as i128 {
            unit_direction.reflect(&rec.normal)
        } else {
            unit_direction.refract(&rec.normal, ri)
        };

        let scattered = Ray::new(rec.p, direction, ray_in.time());
        let attenuation = Vec3::new_with(Fixed::one(), Fixed::one(), Fixed::one());
        Some((attenuation, scattered))
    }

    fn emit(&self, ray_in: &Ray, rec: &HitRecord) -> (r: Color) {
        Vec3::new()
    }
}

/// A light-emitting surface: absorbs every path and radiates a fixed color.
#[derive(Clone, Copy, Debug, PartialEq, Eq, Structural)]
pub struct LightDiffuser {
    pub color: Color,
}

impl LightDiffuser {
    /// An emitter radiating the given color.
    pub fn new(color: &Color) -> (r: LightDiffuser)
        requires
            color_unit(color@),
        ensures
            r.color == *color,
            r.wf(),
    {
        LightDiffuser { color: *color }
    }
}

impl Material for LightDiffuser {
    open spec fn wf(&self) -> bool {
        color_unit(self.color@)
    }

    open spec fn scatter_ens(&self, ray_in: RayModel, rec: HitModel, r: Option<(Color, Ray)>)
        -> bool {
        r is None
    }

    open spec fn emit_ens(&self, ray_in: RayModel, rec: HitModel, r: Color) -> bool {
        r == self.color
    }

    fn scatter(&self, rng: &mut rand::rngs::StdRng, ray_in: &Ray, rec: &HitRecord) -> (r: Option<
        (Color, Ray),
    >) {
        None
    }

    fn emit(&self, ray_in: &Ray, rec: &HitRecord) -> (r: Color) {
        self.color
    }
}

/// A low-density scattering medium: mostly lets rays pass, sometimes
/// bounces them diffusely.
#[derive(Clone, Copy, Debug, PartialEq, Eq, Structural)]
pub struct Smoke {
    pub color: Color,
    pub density: Fixed,
}

impl Smoke {
    /// A medium with the given color and density.
    pub fn new(color: &Color, density: Fixed) -> (r: Smoke)
        requires
            color_unit(color@),
        ensures
            r.color == *color,
            r.density == density,
            r.wf(),
    {
        Smoke { color: *color, density }
    }
}

impl Material for Smoke {
    open spec fn wf(&self) -> bool {
        color_unit(self.color@)
    }

    open spec fn scatter_ens(&self, ray_in: RayModel, rec: HitModel, r: Option<(Color, Ray)>)
        -> bool {
        match r {
            Some((att, sc)) => {
                let diffuse = att == self.color && diffuse_dir_ok(rec.normal, sc@.direction);
                let through = att@ == white() && sc@.direction == ray_in.direction;
                &&& sc@.origin == rec.p
                &&& sc@.time == ray_in.time
                &&& (diffuse || through)
                &&& (self.density.raw >= 7_999 ==> through)
                &&& (self.density.raw < 1_000 ==> diffuse)
            },
            None => false,
        }
    }

    open spec fn emit_ens(&self, ray_in: RayModel, rec: HitModel, r: Color) -> bool {
        r@ == V3::zero()
    }

    fn scatter(&self, rng: &mut rand::rngs::StdRng, ray_in: &Ray, rec: &HitRecord) -> (r: Option<
        (Color, Ray),
    >) {
        let random_number = rng_range(rng, 1_000, 8_000);

        if (random_number as i128) > self.density.raw {
            let u = Vec3::random_unit_vector(rng);
            let mut scatter_direction = rec.normal.add(&u);
            if scatter_direction.is_near_zero() {
                scatter_direction = rec.normal;
            }
            let scattered = Ray::new(rec.p, scatter_direction, ray_in.time());
            let attenuation = self.color;
            Some((attenuation, scattered))
        } else {
            let scattered = Ray::new(rec.p, *ray_in.direction(), ray_in.time());
            let attenuation = Vec3::new_with(Fixed::one(), Fixed::one(), Fixed::one());
            Some((attenuation, scattered))
        }
    }

    fn emit(&self, ray_in: &Ray, rec: &HitRecord) -> (r: Color) {
        Vec3::new()
    }
}

/// One material of the closed set a scene object can carry.
#[derive(Clone, Copy, Debug, PartialEq, Eq, Structural)]
pub enum MaterialKind {
    Lambertian(LambertianMaterial),
    Metallic(Metal),
    Refractive(Dielectric),
    Emissive(LightDiffuser),
    Volumetric(Smoke),
}

impl Material for MaterialKind {
    open spec fn wf(&self) -> bool {
        match self {
            MaterialKind::Lambertian(m) => m.wf(),
            MaterialKind::Metallic(m) => m.wf(),
            MaterialKind::Refractive(m) => m.wf(),
            MaterialKind::Emissive(m) => m.wf(),
            MaterialKind::Volumetric(m) => m.wf(),
        }
    }

    open spec fn scatter_ens(&self, ray_in: RayModel, rec: HitModel, r: Option<(Color, Ray)>)
        -> bool {
        match self {
            MaterialKind::Lambertian(m) => m.scatter_ens(ray_in, rec, r),
            MaterialKind::Metallic(m) => m.scatter_ens(ray_in, rec, r),
            MaterialKind::Refractive(m) => m.scatter_ens(ray_in, rec, r),
            MaterialKind::Emissive(m) => m.scatter_ens(ray_in, rec, r),
            MaterialKind::Volumetric(m) => m.scatter_ens(ray_in, rec, r),
        }
    }

    open spec fn emit_ens(&self, ray_in: RayModel, rec: HitModel, r: Color) -> bool {
        match self {
            MaterialKind::Lambertian(m) => m.emit_ens(ray_in, rec, r),
            MaterialKind::Metallic(m) => m.emit_ens(ray_in, rec, r),
            MaterialKind::Refractive(m) => m.emit_ens(ray_in, rec, r),
            MaterialKind::Emissive(m) => m.emit_ens(ray_in, rec, r),
            MaterialKind::Volumetric(m) => m.emit_ens(ray_in, rec, r),
        }
    }

    fn scatter(&self, rng: &mut rand::rngs::StdRng, ray_in: &Ray, rec: &HitRecord) -> (r: Option<
        (Color, Ray),
    >) {
        match self {
            MaterialKind::Lambertian(m) => m.scatter(rng, ray_in, rec),
            MaterialKind::Metallic(m) => m.scatter(rng, ray_in, rec),
            MaterialKind::Refractive(m) => m.scatter(rng, ray_in, rec),
            MaterialKind::Emissive(m) => m.scatter(rng, ray_in, rec),
            MaterialKind::Volumetric(m) => m.scatter(rng, ray_in, rec),
        }
    }

    fn emit(&self, ray_in: &Ray, rec: &HitRecord) -> (r: Color) {
        match self {
            MaterialKind::Lambertian(m) => m.emit(ray_in, rec),
            MaterialKind::Metallic(m) => m.emit(ray_in, rec),
            MaterialKind::Refractive(m) => m.emit(ray_in, rec),
            MaterialKind::Emissive(m) => m.emit(ray_in, rec),
            MaterialKind::Volumetric(m) => m.emit(ray_in, rec),
        }
    }
}

/// At normal incidence (a cosine of exactly one) a dielectric can always
/// refract: total internal reflection is impossible whatever the index
/// ratio, because the sine is exactly zero.
pub proof fn lemma_no_tir_at_normal_incidence(u: V3, n: V3, ri: int)
    requires
        dielectric_cos(u, n) == SCALE,
    ensures
        !dielectric_cannot_refract(u, n, ri),
{
    let s = SCALE as int;
    crate::fixed::lemma_fmul_unit_upper(s, s);
    vstd::arithmetic::div_mod::lemma_div_multiples_vanish(s, s);
    assert(s * s == s * s) by (nonlinear_arith) {}
    assert(fmul_raw(s, s) == s) by {
        assert((s * s) / s == s) by {
            vstd::arithmetic::div_mod::lemma_div_multiples_vanish(s, s);
        }
    }
    assert((SCALE as int) - fmul_raw(s, s) == 0);
    assert(fsqrt_raw(0) == 0) by {
        assert((0 * (SCALE as int)) as nat == 0nat) by (nonlinear_arith) {}
        assert(isqrt_spec(0nat) == 0nat);
    }
    assert(fmul_raw(ri, 0) == 0) by {
        assert(ri * 0 == 0) by (nonlinear_arith) {}
        vstd::arithmetic::div_mod::lemma_div_of0(SCALE as int);
    }
}

/// At a cosine of exactly one the Schlick reflectance is exactly the base
/// reflectance `r0`, for every index ratio: the fifth-power term vanishes.
pub proof fn lemma_reflectance_at_full_cosine(idx: int)
    ensures
        reflectance_spec(SCALE as int, idx) == ({
            let t = fdiv_raw((SCALE as int) - idx, (SCALE as int) + idx);
            fmul_raw(t, t)
        }),
{
    let s = SCALE as int;
    vstd::arithmetic::div_mod::lemma_div_of0(s);
    assert(fmul_raw(0, 0) == 0) by {
        assert(0 * 0 == 0) by (nonlinear_arith) {}
    }
    assert(pow5_raw(0) == 0) by {
        assert(fmul_raw(0, 0) == 0);
    }
    let t = fdiv_raw(s - idx, s + idx);
    let r0 = fmul_raw(t, t);
    assert(fmul_raw(s - r0, 0) == 0) by {
        assert((s - r0) * 0 == 0) by (nonlinear_arith) {}
    }
}

/// Whatever a well-formed material returned from `scatter`, the attenuation
/// is a color in `[0, 1]`, and the scattered ray starts at the hit point
/// and keeps the incoming ray's time.
pub proof fn lemma_scatter_common(
    m: MaterialKind,
    ray_in: RayModel,
    rec: HitModel,
    att: Color,
    sc: Ray,
)
    requires
        m.wf(),
        m.scatter_ens(ray_in, rec, Some((att, sc))),
    ensures
        color_unit(att@),
        sc@.origin == rec.p,
        sc@.time == ray_in.time,
{
}

} // verus!
